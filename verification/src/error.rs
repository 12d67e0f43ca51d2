use vstd::prelude::*;

verus! {

/// Error type for authentik authentication failures.
///
/// | Variant          | Code | HTTP Status |
/// |------------------|------|-------------|
/// | `Unauthenticated`| 1000 | 401         |
/// | `Forbidden`      | 1001 | 403         |
#[derive(Debug)]
pub enum AuthentikError {
    /// The user is not authenticated (missing or invalid auth headers).
    Unauthenticated,
    /// The user is authenticated but does not have the required permissions.
    Forbidden {
        /// The group (or the description of the groups) that the user was
        /// required to belong to.
        required_group: String,
    },
}

} // verus!
