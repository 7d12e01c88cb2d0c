//! A local-network chat: node discovery, chat rooms, a browser chat client
//! and peer-to-peer file transfer, with their rules proved.

pub mod assoc;
pub mod text;
pub mod client;
pub mod api;
pub mod command;
pub mod proto;
pub mod discovery;
pub mod node;
pub mod json;
pub mod chat_client;
pub mod ui;
pub mod views;
pub mod webrtc_types;
pub mod webrtc_error;
pub mod file_transfer;
pub mod device;

use vstd::prelude::*;

verus! {

/// The version of this library.
pub fn version() -> (v: String)
    ensures
        v@ == "0.1.0"@,
{
    String::from_str("0.1.0")
}

} // verus!
