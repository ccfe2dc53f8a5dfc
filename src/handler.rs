use vstd::prelude::*;

use crate::chat::{ChatRow, Chatlog};
use crate::event::{ChannelEvent, ClientEvent};
use crate::store::{
    apply_op, chat_at, has_chat, has_profile, set_watermark_rows, CacheStore, CacheView, StoreError,
    StoreOp,
};

verus! {

/// The server closed the session.
#[derive(Debug)]
pub struct Kickout {
    pub reason: String,
}

/// A chat pushed by the server.
#[derive(Debug)]
pub struct Msg {
    pub chat_id: i64,
    pub chatlog: Chatlog,
    pub link_id: i64,
    pub author_nickname: String,
}

/// A read receipt: `user_id` has read `chat_id` up to `watermark`.
#[derive(Clone, Copy, Debug)]
pub struct DecunRead {
    pub chat_id: i64,
    pub user_id: i64,
    pub watermark: i64,
}

/// A command pushed by the server on the session stream.
#[derive(Debug)]
pub enum StreamCommand {
    Kickout(Kickout),
    SwitchServer,
    Chat(Msg),
    ChatRead(DecunRead),
    /// Any command this handler does not act on.
    Other,
}

/// Why a pushed command could not be applied.
#[derive(Clone, Copy, Debug, PartialEq, Eq, Structural)]
pub enum HandlerError {
    Store(StoreError),
}

/// The write a command makes against the cache, if any.
pub open spec fn command_op(command: StreamCommand) -> Option<StoreOp> {
    match command {
        StreamCommand::Chat(msg) => Some(StoreOp::InsertChat(ChatRow::of_chatlog(msg.chatlog, None))),
        StreamCommand::ChatRead(read) => Some(
            StoreOp::SetWatermark {
                channel_id: read.chat_id,
                user_id: read.user_id,
                watermark: read.watermark,
            },
        ),
        _ => None,
    }
}

/// The event a command reports once its write, if any, has succeeded.
pub open spec fn command_event(command: StreamCommand) -> Option<ClientEvent> {
    match command {
        StreamCommand::Kickout(kickout) => Some(ClientEvent::Kickout(kickout.reason)),
        StreamCommand::SwitchServer => Some(ClientEvent::SwitchServer),
        StreamCommand::Chat(msg) => Some(
            ClientEvent::Channel {
                id: msg.chat_id,
                event: ChannelEvent::Chat {
                    link_id: msg.link_id,
                    user_nickname: msg.author_nickname,
                    chat: msg.chatlog,
                },
            },
        ),
        StreamCommand::ChatRead(read) => Some(
            ClientEvent::Channel {
                id: read.chat_id,
                event: ChannelEvent::ChatRead { user_id: read.user_id, log_id: read.watermark },
            },
        ),
        StreamCommand::Other => None,
    }
}

/// The write that `command` makes against the cache, if any.
pub fn store_op(command: &StreamCommand) -> (r: Option<StoreOp>)
    ensures
        r == command_op(*command),
{
    match command {
        StreamCommand::Chat(msg) => Some(StoreOp::InsertChat(ChatRow::from_chatlog(&msg.chatlog, None))),
        StreamCommand::ChatRead(read) => Some(
            StoreOp::SetWatermark {
                channel_id: read.chat_id,
                user_id: read.user_id,
                watermark: read.watermark,
            },
        ),
        _ => None,
    }
}

/// The event that `command` reports once its write, if any, has succeeded.
pub fn event_of(command: StreamCommand) -> (r: Option<ClientEvent>)
    ensures
        r == command_event(command),
{
    match command {
        StreamCommand::Kickout(kickout) => Some(ClientEvent::Kickout(kickout.reason)),
        StreamCommand::SwitchServer => Some(ClientEvent::SwitchServer),
        StreamCommand::Chat(msg) => Some(
            ClientEvent::Channel {
                id: msg.chat_id,
                event: ChannelEvent::Chat {
                    link_id: msg.link_id,
                    user_nickname: msg.author_nickname,
                    chat: msg.chatlog,
                },
            },
        ),
        StreamCommand::ChatRead(read) => Some(
            ClientEvent::Channel {
                id: read.chat_id,
                event: ChannelEvent::ChatRead { user_id: read.user_id, log_id: read.watermark },
            },
        ),
        StreamCommand::Other => None,
    }
}

/// What a command reports once the outcome of its write is known: its
/// event when the write succeeded (or there was none), else the store error.
pub fn command_outcome(command: StreamCommand, written: Result<(), StoreError>) -> (r: Result<
    Option<ClientEvent>,
    HandlerError,
>)
    ensures
        match written {
            Ok(()) => r == Ok::<Option<ClientEvent>, HandlerError>(command_event(command)),
            Err(e) => r == Err::<Option<ClientEvent>, HandlerError>(HandlerError::Store(e)),
        },
{
    match written {
        Ok(()) => Ok(event_of(command)),
        Err(e) => Err(HandlerError::Store(e)),
    }
}

/// Applies one pushed command to `store`: makes its write, then reports its
/// event. A failed write changes nothing and reports no event.
pub fn apply_command(store: &mut CacheStore, command: StreamCommand) -> (r: Result<
    Option<ClientEvent>,
    HandlerError,
>)
    requires
        old(store).wf(),
    ensures
        final(store).wf(),
        match command_op(command) {
            None => r == Ok::<Option<ClientEvent>, HandlerError>(command_event(command))
                && final(store)@ == old(store)@,
            Some(op) => match apply_op(old(store)@, op) {
                Ok(n) => r == Ok::<Option<ClientEvent>, HandlerError>(command_event(command))
                    && final(store)@ == n,
                Err(e) => r == Err::<Option<ClientEvent>, HandlerError>(HandlerError::Store(e))
                    && final(store)@ == old(store)@,
            },
        },
{
    let written = match store_op(&command) {
        None => Ok(()),
        Some(op) => match store.apply(op) {
            Ok(_) => Ok(()),
            Err(e) => Err(e),
        },
    };
    command_outcome(command, written)
}

/// Applies pushed commands to the cache, one at a time.
pub struct SessionHandler {
    pub store: CacheStore,
}

impl SessionHandler {
    pub fn new(store: CacheStore) -> (r: SessionHandler)
        ensures
            r.store == store,
    {
        SessionHandler { store }
    }

    /// Applies one pushed command to this handler's store (see `apply_command`).
    pub fn handle(&mut self, command: StreamCommand) -> (r: Result<Option<ClientEvent>, HandlerError>)
        requires
            old(self).store.wf(),
        ensures
            final(self).store.wf(),
            match command_op(command) {
                None => r == Ok::<Option<ClientEvent>, HandlerError>(command_event(command))
                    && final(self).store@ == old(self).store@,
                Some(op) => match apply_op(old(self).store@, op) {
                    Ok(n) => r == Ok::<Option<ClientEvent>, HandlerError>(command_event(command))
                        && final(self).store@ == n,
                    Err(e) => r == Err::<Option<ClientEvent>, HandlerError>(
                        HandlerError::Store(e),
                    ) && final(self).store@ == old(self).store@,
                },
            },
    {
        apply_command(&mut self.store, command)
    }
}

/// A chat inserted by a `Chat` command reads back under its
/// `(channel id, log id)` key with exactly the fields of its chat log.
pub proof fn lemma_chat_round_trip(v: CacheView, msg: Msg)
    requires
        v.wf(),
        apply_op(v, command_op(StreamCommand::Chat(msg))->Some_0) is Ok,
    ensures
        chat_at(
            apply_op(v, command_op(StreamCommand::Chat(msg))->Some_0)->Ok_0.chats,
            msg.chatlog.chat_id,
            msg.chatlog.log_id,
        ) == Some(ChatRow::of_chatlog(msg.chatlog, None)),
{
    let row = ChatRow::of_chatlog(msg.chatlog, None);
    let s = v.chats.push(row);
    let last = v.chats.len() as int;
    assert(s[last] == row);
    assert(has_chat(s, row.channel_id, row.log_id));
    let j = choose|j: int|
        0 <= j < s.len() && s[j].channel_id == row.channel_id && s[j].log_id == row.log_id;
    if j < last {
        assert(v.chats[j] == s[j]);
        assert(has_chat(v.chats, row.channel_id, row.log_id));
    }
}

/// Replaying a `Chat` command whose insert succeeded fails with a conflict.
pub proof fn lemma_replayed_chat_conflicts(v: CacheView, msg: Msg)
    requires
        apply_op(v, command_op(StreamCommand::Chat(msg))->Some_0) is Ok,
    ensures
        apply_op(
            apply_op(v, command_op(StreamCommand::Chat(msg))->Some_0)->Ok_0,
            command_op(StreamCommand::Chat(msg))->Some_0,
        ) == Err::<CacheView, StoreError>(StoreError::Conflict),
{
    let row = ChatRow::of_chatlog(msg.chatlog, None);
    let s = v.chats.push(row);
    assert(s[v.chats.len() as int] == row);
}

/// Read receipts overwrite: applying one for a `(channel, user)` pair and
/// then another leaves the cache as the second alone would, so the stored
/// watermark is the second one even when it is lower.
pub proof fn lemma_read_overwrites(v: CacheView, first: DecunRead, second: DecunRead)
    requires
        first.chat_id == second.chat_id,
        first.user_id == second.user_id,
    ensures
        apply_op(
            apply_op(v, command_op(StreamCommand::ChatRead(first))->Some_0)->Ok_0,
            command_op(StreamCommand::ChatRead(second))->Some_0,
        ) == apply_op(v, command_op(StreamCommand::ChatRead(second))->Some_0),
        forall|i: int|
            0 <= i < v.profiles.len() && v.profiles[i].channel_id == second.chat_id
                && v.profiles[i].user_id == second.user_id ==> (#[trigger] apply_op(
                apply_op(v, command_op(StreamCommand::ChatRead(first))->Some_0)->Ok_0,
                command_op(StreamCommand::ChatRead(second))->Some_0,
            )->Ok_0.profiles[i]).watermark == second.watermark,
{
    let (c, u) = (second.chat_id, second.user_id);
    let once = set_watermark_rows(v.profiles, c, u, first.watermark);
    assert(set_watermark_rows(once, c, u, second.watermark) =~= set_watermark_rows(
        v.profiles,
        c,
        u,
        second.watermark,
    ));
}

/// A read receipt for a `(channel, user)` pair without a profile row
/// succeeds and leaves the cache as it was.
pub proof fn lemma_read_without_profile_is_noop(v: CacheView, read: DecunRead)
    requires
        !has_profile(v.profiles, read.chat_id, read.user_id),
    ensures
        apply_op(v, command_op(StreamCommand::ChatRead(read))->Some_0) == Ok::<
            CacheView,
            StoreError,
        >(v),
{
    assert(set_watermark_rows(v.profiles, read.chat_id, read.user_id, read.watermark)
        =~= v.profiles);
}

} // verus!
