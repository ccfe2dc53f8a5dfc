use headless_talk::chat::{ChatRow, Chatlog};
use headless_talk::event::{ChannelEvent, ClientEvent};
use headless_talk::handler::{
    command_outcome, event_of, store_op, DecunRead, HandlerError, Kickout, Msg, SessionHandler, StreamCommand,
};
use headless_talk::store::{CacheStore, StoreError, StoreOp, UserProfile};

fn chatlog(chat_id: i64, log_id: i64) -> Chatlog {
    Chatlog {
        log_id,
        chat_id,
        prev_log_id: Some(log_id - 3),
        chat_type: 1,
        msg_id: 777,
        send_at: 1_700_000_000,
        author_id: 9,
        message: Some("hello".to_string()),
        attachment: Some("{\"k\":1}".to_string()),
        supplement: None,
        referer: Some(2),
    }
}

fn chat_command(chat_id: i64, log_id: i64) -> StreamCommand {
    StreamCommand::Chat(Msg {
        chat_id,
        chatlog: chatlog(chat_id, log_id),
        link_id: 5,
        author_nickname: "Alice".to_string(),
    })
}

fn read_command(chat_id: i64, user_id: i64, watermark: i64) -> StreamCommand {
    StreamCommand::ChatRead(DecunRead { chat_id, user_id, watermark })
}

fn store_with_profile(channel_id: i64, user_id: i64, watermark: i64) -> CacheStore {
    let mut store = CacheStore::new();
    store
        .insert_profile(UserProfile {
            channel_id,
            user_id,
            nickname: "Bob".to_string(),
            watermark,
        })
        .unwrap();
    store
}

fn watermark_of(handler: &SessionHandler, channel_id: i64, user_id: i64) -> i64 {
    handler.store.profile(channel_id, user_id).unwrap().watermark
}

#[test]
fn chat_reads_back_with_same_fields() {
    let mut handler = SessionHandler::new(CacheStore::new());
    let event = handler.handle(chat_command(42, 100));
    match event {
        Ok(Some(ClientEvent::Channel {
            id,
            event: ChannelEvent::Chat { link_id, user_nickname, chat },
        })) => {
            assert_eq!(id, 42);
            assert_eq!(link_id, 5);
            assert_eq!(user_nickname, "Alice");
            assert_eq!(chat.log_id, 100);
        }
        _ => panic!("expected a chat event"),
    }
    let row = handler.store.find_chat(42, 100).unwrap();
    let log = chatlog(42, 100);
    assert_eq!(row.log_id, log.log_id);
    assert_eq!(row.channel_id, log.chat_id);
    assert_eq!(row.prev_log_id, log.prev_log_id);
    assert_eq!(row.chat_type, log.chat_type);
    assert_eq!(row.message_id, log.msg_id);
    assert_eq!(row.send_at, log.send_at);
    assert_eq!(row.author_id, log.author_id);
    assert_eq!(row.message, log.message);
    assert_eq!(row.attachment, log.attachment);
    assert_eq!(row.supplement, log.supplement);
    assert_eq!(row.referer, log.referer);
    assert_eq!(row.deleted_time, None);
    assert!(handler.store.find_chat(42, 101).is_none());
    assert!(handler.store.find_chat(43, 100).is_none());
}

#[test]
fn replayed_chat_conflicts_without_event() {
    let mut handler = SessionHandler::new(CacheStore::new());
    assert!(matches!(handler.handle(chat_command(42, 100)), Ok(Some(_))));
    let second = handler.handle(chat_command(42, 100));
    assert!(matches!(second, Err(HandlerError::Store(StoreError::Conflict))));
    assert_eq!(handler.store.chats.len(), 1);
}

#[test]
fn same_log_id_in_another_channel_is_no_conflict() {
    let mut handler = SessionHandler::new(CacheStore::new());
    assert!(handler.handle(chat_command(42, 100)).is_ok());
    assert!(handler.handle(chat_command(43, 100)).is_ok());
    assert_eq!(handler.store.chats.len(), 2);
}

#[test]
fn lower_read_receipt_overwrites_watermark() {
    let mut handler = SessionHandler::new(store_with_profile(42, 1, 0));
    assert!(handler.handle(read_command(42, 1, 10)).is_ok());
    assert_eq!(watermark_of(&handler, 42, 1), 10);
    let event = handler.handle(read_command(42, 1, 5));
    match event {
        Ok(Some(ClientEvent::Channel { id, event: ChannelEvent::ChatRead { user_id, log_id } })) => {
            assert_eq!(id, 42);
            assert_eq!(user_id, 1);
            assert_eq!(log_id, 5);
        }
        _ => panic!("expected a read event"),
    }
    assert_eq!(watermark_of(&handler, 42, 1), 5);
}

#[test]
fn read_receipt_without_profile_changes_nothing() {
    let mut store = store_with_profile(42, 1, 7);
    assert_eq!(store.set_watermark(42, 2, 30), 0);
    assert_eq!(store.set_watermark(41, 1, 30), 0);
    assert_eq!(store.profile(42, 1).unwrap().watermark, 7);
    assert_eq!(store.set_watermark(42, 1, 30), 1);
    assert_eq!(store.profile(42, 1).unwrap().watermark, 30);

    let mut handler = SessionHandler::new(store_with_profile(42, 1, 7));
    assert!(matches!(handler.handle(read_command(42, 2, 30)), Ok(Some(_))));
    assert_eq!(handler.store.profiles.len(), 1);
    assert_eq!(watermark_of(&handler, 42, 1), 7);
}

#[test]
fn kickout_and_switch_server_touch_no_table() {
    let mut handler = SessionHandler::new(CacheStore::new());
    let kicked = handler.handle(StreamCommand::Kickout(Kickout { reason: "other device".to_string() }));
    match kicked {
        Ok(Some(ClientEvent::Kickout(reason))) => assert_eq!(reason, "other device"),
        _ => panic!("expected a kickout event"),
    }
    assert!(matches!(
        handler.handle(StreamCommand::SwitchServer),
        Ok(Some(ClientEvent::SwitchServer))
    ));
    assert!(matches!(handler.handle(StreamCommand::Other), Ok(None)));
    assert_eq!(handler.store.chats.len(), 0);
}

#[test]
fn store_op_follows_command() {
    assert!(store_op(&StreamCommand::SwitchServer).is_none());
    assert!(store_op(&StreamCommand::Other).is_none());
    match store_op(&read_command(3, 4, 5)) {
        Some(StoreOp::SetWatermark { channel_id, user_id, watermark }) => {
            assert_eq!((channel_id, user_id, watermark), (3, 4, 5));
        }
        _ => panic!("expected a watermark write"),
    }
    match store_op(&chat_command(8, 9)) {
        Some(StoreOp::InsertChat(row)) => {
            assert_eq!((row.channel_id, row.log_id), (8, 9));
            assert_eq!(row.deleted_time, None);
        }
        _ => panic!("expected a chat insert"),
    }
    assert!(event_of(StreamCommand::Other).is_none());
}

#[test]
fn chat_row_copies_chatlog() {
    let log = chatlog(42, 100);
    let row = ChatRow::from_chatlog(&log, Some(12));
    assert_eq!(row.channel_id, 42);
    assert_eq!(row.log_id, 100);
    assert_eq!(row.prev_log_id, Some(97));
    assert_eq!(row.message_id, 777);
    assert_eq!(row.message.as_deref(), Some("hello"));
    assert_eq!(row.deleted_time, Some(12));
}

#[test]
fn failed_unit_applies_none_of_its_writes() {
    let mut store = store_with_profile(42, 1, 3);
    store
        .insert_profile(UserProfile { channel_id: 42, user_id: 2, nickname: "Carol".to_string(), watermark: 4 })
        .unwrap();
    store.insert_chat(ChatRow::from_chatlog(&chatlog(42, 100), None)).unwrap();
    let ops = vec![
        StoreOp::SetWatermark { channel_id: 42, user_id: 1, watermark: 50 },
        StoreOp::SetWatermark { channel_id: 42, user_id: 2, watermark: 60 },
        StoreOp::InsertChat(ChatRow::from_chatlog(&chatlog(42, 100), None)),
    ];
    assert_eq!(store.apply_unit(&ops), Err(StoreError::Conflict));
    assert_eq!(store.profile(42, 1).unwrap().watermark, 3);
    assert_eq!(store.profile(42, 2).unwrap().watermark, 4);
    assert_eq!(store.chats.len(), 1);

    let ok_ops = vec![
        StoreOp::SetWatermark { channel_id: 42, user_id: 1, watermark: 50 },
        StoreOp::InsertChat(ChatRow::from_chatlog(&chatlog(42, 101), None)),
    ];
    assert_eq!(store.apply_unit(&ok_ops), Ok(()));
    assert_eq!(store.profile(42, 1).unwrap().watermark, 50);
    assert_eq!(store.chats.len(), 2);
}

#[test]
fn command_outcome_follows_write_result() {
    match command_outcome(read_command(4, 5, 6), Ok(())) {
        Ok(Some(ClientEvent::Channel { id, event: ChannelEvent::ChatRead { user_id, log_id } })) => {
            assert_eq!((id, user_id, log_id), (4, 5, 6));
        }
        _ => panic!("expected a read event"),
    }
    assert!(matches!(
        command_outcome(chat_command(4, 9), Err(StoreError::Conflict)),
        Err(HandlerError::Store(StoreError::Conflict))
    ));
    assert!(matches!(command_outcome(StreamCommand::Other, Ok(())), Ok(None)));
}
