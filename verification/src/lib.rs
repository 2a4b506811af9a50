//! Verified core of the EzPlace Network web backend: the Minecraft
//! server-list-ping wire format, the status document, the session token,
//! and the HTML fragments that the handlers send back.

pub mod ctx;
pub mod session;
pub mod varint;
pub mod packet;
pub mod error;
pub mod html;
pub mod json;
pub mod models;
pub mod response;
pub mod status;
pub mod text;
