use vstd::prelude::*;

use crate::chat::Chatlog;

verus! {

/// An event inside one channel, reported to the client.
#[derive(Debug)]
pub enum ChannelEvent {
    /// A chat was sent.
    Chat { link_id: i64, user_nickname: String, chat: Chatlog },
    /// A user read the channel up to `log_id`.
    ChatRead { user_id: i64, log_id: i64 },
}

/// An event reported to the client.
#[derive(Debug)]
pub enum ClientEvent {
    /// The session was closed by the server for `reason`.
    Kickout(String),
    /// The server asked the client to move to another server.
    SwitchServer,
    /// Something happened in channel `id`.
    Channel { id: i64, event: ChannelEvent },
}

} // verus!
