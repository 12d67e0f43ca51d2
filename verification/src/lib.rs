//! Identity and group-based access decisions for requests that an authentik
//! Proxy Provider has already authenticated.
//!
//! The reverse proxy forwards the user's identity in `x-authentik-*` headers
//! (`username`, `email`, `name`, `uid` and a `|`-separated `groups` list).
//! This crate turns those headers into an [`AuthentikUser`], decides whether a
//! user passes a group guard, and holds the configuration of the header
//! prefix. Every function here carries a contract; Verus proves each one,
//! except the contracts of the two small wrappers around outside calls
//! (`HeaderMap::get` and `String::push`), which are trusted.

mod error;
pub mod groups;
pub mod guard;
pub mod headers;
pub mod layer;
mod text;
mod user;

pub use error::AuthentikError;
pub use guard::{
    GroupGuard, GroupMatchMode, RequireGroup, require_all_groups, require_any_group, require_group,
};
pub use headers::{read_user_from_headers, resolve_header_prefix, DEFAULT_HEADER_PREFIX};
pub use user::AuthentikUser;
