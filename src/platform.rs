//! The calling thread's last platform error code.
use vstd::prelude::*;

verus! {

/// The platform's code for an invalid argument (`EINVAL`).
pub const ERRNO_INVALID: i32 = 22;

/// The platform's code for an operation that is not implemented (`ENOSYS`).
pub const ERRNO_NOT_IMPLEMENTED: i32 = 38;

/// Relies on `errno::errno`: reads the calling thread's last platform error
/// code. What it returns depends on the calls made before, so nothing is
/// promised of it.
#[verifier::external_body]
pub(crate) fn last_error() -> (r: i32) {
    errno::errno().0
}

/// Relies on `errno::set_errno`: stores `code` as the calling thread's last
/// platform error code, for the session to pass on to the client.
#[verifier::external_body]
pub(crate) fn set_last_error(code: i32) {
    errno::set_errno(errno::Errno(code))
}

} // verus!
