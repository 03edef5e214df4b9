//! An authoritative dedicated host for a peer-to-peer lobby game: a binary
//! variant codec proved against its wire format, a per-channel packet
//! dispatcher, an actor registry with quota rules, a timed spawn manager,
//! and the lobby bookkeeping around them.

pub mod variant;
pub mod wire;
pub mod encode;
pub mod decode;
pub mod codec_laws;
pub mod external;
pub mod text;
pub mod time;
pub mod actor;
pub mod packet;
pub mod config;
pub mod server;
pub mod spawn;
pub mod peer;
pub mod command;
pub mod handlers;
pub mod game;

use vstd::prelude::*;

verus! {

} // verus!
