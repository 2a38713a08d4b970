//! The one question the library asks the credential store directly: whether
//! a credential has been set up at all. Reading and writing the store, like
//! all other persistence, is plain file I/O and stays with the caller.

use vstd::prelude::*;

verus! {

/// Relies on `std::path::Path::exists`: reports whether the credential-hash
/// file is present in the working directory. The result depends on the
/// filesystem, so nothing is stated about it.
#[verifier::external_body]
fn credential_file_present() -> bool {
    std::path::Path::new(".securepad_pass").exists()
}

/// Whether a credential has already been set up: true when the
/// credential-hash file exists. The answer depends on the filesystem, so no
/// more is stated; the caller uses it only to choose between first-time
/// setup and verification.
pub fn password_exists() -> bool {
    credential_file_present()
}

} // verus!
