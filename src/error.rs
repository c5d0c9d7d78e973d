//! Errors of the firewall backends.

use vstd::prelude::*;

verus! {

/// Makes `std::io::Error` usable in the library's types (it is only carried, never read).
#[verifier::external_type_specification]
#[verifier::external_body]
pub struct ExIoError(std::io::Error);

/// An error that occurred while configuring the firewall.
#[derive(Debug)]
pub enum FirewallError {
    /// The firewall tool could not be started.
    IoError(std::io::Error),
    /// The firewall tool ran but reported failure; holds its exit code, if there is one.
    IptablesError(Option<i32>),
}

/// A result that holds `T` on success and a `FirewallError` on failure.
pub type FirewallResult<T> = Result<T, FirewallError>;

} // verus!
