//! The backend's error type.

use vstd::prelude::*;

verus! {

/// What can go wrong while serving a request.
#[derive(Debug, Clone)]
pub enum Error {
    /// A failure while talking to the game server or building a page, with its message.
    ServerError(String),
    /// The request carries no session cookie.
    AuthFailNoAuthTokenCookie,
    /// The session cookie is not of the form `minecraft-<id>.<name>.<exp>.<sign>`.
    AuthFailTokenWrongFormat,
    /// The request was not passed through the session resolver.
    AuthFailCtxNotInRequestExt,
}

} // verus!
