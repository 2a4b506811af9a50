//! The data that the handlers pass around.

use vstd::prelude::*;

verus! {

/// What the stats panel shows of the game server.
#[derive(Debug)]
pub struct ServerStats {
    pub online: bool,
    pub protocol_name: String,
    pub players: Players,
}

/// Players online and player slots.
#[derive(Debug)]
pub struct Players {
    pub online: u32,
    pub max: u32,
}

/// The part of Mojang's profile lookup answer that the login uses.
#[derive(Debug)]
pub struct MojangResponse {
    pub id: String,
}

/// The login form's fields.
pub struct LoginRequest {
    pub username: String,
}

} // verus!
