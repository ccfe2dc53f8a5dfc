use headless_talk::channel::{
    join_nicknames, load_list_profile, ClientChannel, NormalChannel, META_PROFILE, META_TITLE,
};
use headless_talk::chat::{ChatRow, Chatlog};
use headless_talk::client::{
    classify_channel, open_outcome, watermark_ops, ChatOnChannelType, ChatOnResponse, ClientError, ClientStatus, HeadlessTalk,
    RequestError,
};
use headless_talk::handler::{DecunRead, StreamCommand};
use headless_talk::store::{CacheStore, StoreError, ChannelListRow, ChannelMeta, Membership, StoreOp, UserProfile};

fn profile(channel_id: i64, user_id: i64, nickname: &str, watermark: i64) -> UserProfile {
    UserProfile { channel_id, user_id, nickname: nickname.to_string(), watermark }
}

fn row(channel_id: i64, log_id: i64) -> ChatRow {
    ChatRow::from_chatlog(
        &Chatlog {
            log_id,
            chat_id: channel_id,
            prev_log_id: None,
            chat_type: 1,
            msg_id: log_id,
            send_at: 0,
            author_id: 1,
            message: None,
            attachment: None,
            supplement: None,
            referer: None,
        },
        None,
    )
}

fn client_for_channel_42() -> HeadlessTalk {
    let mut store = CacheStore::new();
    store.insert_chat(row(42, 90)).unwrap();
    store.insert_chat(row(42, 100)).unwrap();
    store.insert_chat(row(42, 95)).unwrap();
    store.insert_chat(row(7, 500)).unwrap();
    store.insert_profile(profile(42, 1, "Alice", 0)).unwrap();
    store.insert_profile(profile(42, 2, "Bob", 0)).unwrap();
    HeadlessTalk::new(10, store)
}

fn response(kind: ChatOnChannelType) -> ChatOnResponse {
    ChatOnResponse { channel_type: kind, watermark_user_ids: vec![1, 2], watermarks: vec![100, 95] }
}

#[test]
fn open_channel_writes_watermarks_and_returns_handle() {
    let mut client = client_for_channel_42();
    assert_eq!(client.last_log_id(42), Some(100));
    let opened = client.open_channel(42, Ok(response(ChatOnChannelType::MultiChat)));
    assert_eq!(opened, Ok(Some(ClientChannel::Normal(NormalChannel::new(42)))));
    assert_eq!(client.store.profile(42, 1).unwrap().watermark, 100);
    assert_eq!(client.store.profile(42, 2).unwrap().watermark, 95);
    match opened {
        Ok(Some(ClientChannel::Normal(channel))) => assert_eq!(channel.id(), 42),
        _ => panic!("expected a channel"),
    }
}

#[test]
fn open_channel_unknown_kind_gives_none_after_writing() {
    let mut client = client_for_channel_42();
    let opened = client.open_channel(42, Ok(response(ChatOnChannelType::Unknown)));
    assert_eq!(opened, Ok(None));
    assert_eq!(client.store.profile(42, 1).unwrap().watermark, 100);
    assert_eq!(client.store.profile(42, 2).unwrap().watermark, 95);
    let open_chat = client.open_channel(42, Ok(response(ChatOnChannelType::OpenMulti)));
    assert_eq!(open_chat, Ok(None));
}

#[test]
fn open_channel_kinds_collapse_to_normal() {
    for kind in [ChatOnChannelType::DirectChat, ChatOnChannelType::MemoChat] {
        let mut client = client_for_channel_42();
        assert_eq!(
            client.open_channel(42, Ok(response(kind))),
            Ok(Some(ClientChannel::Normal(NormalChannel::new(42))))
        );
    }
}

#[test]
fn open_channel_request_error_leaves_cache() {
    let mut client = client_for_channel_42();
    let opened = client.open_channel(42, Err(RequestError::Status(-500)));
    assert_eq!(opened, Err(ClientError::Request(RequestError::Status(-500))));
    assert_eq!(client.store.profile(42, 1).unwrap().watermark, 0);
}

#[test]
fn last_log_id_of_empty_channel_is_none() {
    let client = client_for_channel_42();
    assert_eq!(client.last_log_id(8), None);
    assert_eq!(client.last_log_id(7), Some(500));
    assert_eq!(client.user_id(), 10);
}

#[test]
fn watermark_pairs_stop_at_shorter_sequence() {
    let ops = watermark_ops(42, &vec![1, 2, 3], &vec![100, 95]);
    assert_eq!(ops.len(), 2);
    match &ops[1] {
        StoreOp::SetWatermark { channel_id, user_id, watermark } => {
            assert_eq!((*channel_id, *user_id, *watermark), (42, 2, 95));
        }
        _ => panic!("expected a watermark write"),
    }
}

#[test]
fn list_name_falls_back_to_nicknames() {
    let store = CacheStore::new();
    let users = vec![profile(42, 1, "Alice", 0), profile(42, 2, "Bob", 0)];
    let item = load_list_profile(&store, &users, &ChannelListRow { id: 42 });
    assert_eq!(item.name, "Alice, Bob");
    assert_eq!(item.image_url, None);
}

#[test]
fn list_name_uses_title_and_image() {
    let mut store = CacheStore::new();
    store.put_meta(ChannelMeta { channel_id: 42, meta_type: META_TITLE, content: "Old".to_string() });
    store.put_meta(ChannelMeta {
        channel_id: 42,
        meta_type: META_PROFILE,
        content: "https://img/1".to_string(),
    });
    store.put_meta(ChannelMeta { channel_id: 43, meta_type: META_TITLE, content: "Other".to_string() });
    store.put_meta(ChannelMeta { channel_id: 42, meta_type: META_TITLE, content: "Team".to_string() });
    assert_eq!(store.metas.len(), 3);
    let users = vec![profile(42, 1, "Alice", 0)];
    let item = load_list_profile(&store, &users, &ChannelListRow { id: 42 });
    assert_eq!(item.name, "Team");
    assert_eq!(item.image_url.as_deref(), Some("https://img/1"));
}

#[test]
fn join_nicknames_edges() {
    assert_eq!(join_nicknames(&[]), "");
    assert_eq!(join_nicknames(&[profile(1, 1, "Solo", 0)]), "Solo");
    assert_eq!(
        join_nicknames(&[profile(1, 1, "A", 0), profile(1, 2, "B", 0), profile(1, 3, "C", 0)]),
        "A, B, C"
    );
}

#[test]
fn members_join_profiles_with_membership() {
    let mut store = CacheStore::new();
    store.insert_profile(profile(42, 1, "Alice", 0)).unwrap();
    store.insert_profile(profile(42, 2, "Bob", 0)).unwrap();
    store.insert_profile(profile(43, 1, "Alice", 0)).unwrap();
    store.insert_profile(profile(42, 3, "Carol", 0)).unwrap();
    store.insert_member(Membership { channel_id: 42, user_id: 3 }).unwrap();
    store.insert_member(Membership { channel_id: 42, user_id: 1 }).unwrap();
    store.insert_member(Membership { channel_id: 43, user_id: 2 }).unwrap();
    let users = NormalChannel::new(42).users(&store);
    let names: Vec<&str> = users.iter().map(|u| u.nickname.as_str()).collect();
    assert_eq!(names, vec!["Alice", "Carol"]);
    assert!(NormalChannel::new(44).users(&store).is_empty());
}

#[test]
fn channel_list_keeps_order_of_accepted_rows() {
    let mut store = CacheStore::new();
    for id in [5, 3, 9, 1] {
        store.insert_channel(ChannelListRow { id }).unwrap();
    }
    let client = HeadlessTalk::new(1, store);
    let list = client.channel_list(vec![Some("a"), None, Some("c"), Some("d")]);
    assert_eq!(list, vec![(5, "a"), (9, "c"), (1, "d")]);
    assert!(client.channel_list::<&str>(vec![None, None, None, None]).is_empty());
}

#[test]
fn duplicate_profile_conflicts_and_meta_overwrites() {
    let mut store = CacheStore::new();
    assert!(store.insert_profile(profile(42, 1, "Alice", 0)).is_ok());
    assert!(store.insert_profile(profile(42, 1, "Again", 0)).is_err());
    assert_eq!(store.profile(42, 1).unwrap().nickname, "Alice");
    store.put_meta(ChannelMeta { channel_id: 1, meta_type: META_TITLE, content: "T".to_string() });
    store.put_meta(ChannelMeta { channel_id: 1, meta_type: META_TITLE, content: "U".to_string() });
    assert_eq!(store.meta_content(1, META_TITLE).as_deref(), Some("U"));
    assert_eq!(store.meta_content(1, META_PROFILE), None);
}

#[test]
fn client_status_codes() {
    assert_eq!(ClientStatus::Unlocked.code(), 1);
    assert_eq!(ClientStatus::Locked.code(), 2);
}

#[test]
fn classify_channel_by_kind() {
    assert_eq!(
        classify_channel(9, ChatOnChannelType::DirectChat),
        Some(ClientChannel::Normal(NormalChannel::new(9)))
    );
    assert_eq!(classify_channel(9, ChatOnChannelType::OpenDirect), None);
    assert_eq!(classify_channel(9, ChatOnChannelType::Unknown), None);
}

#[test]
fn keys_unique_detects_duplicate_rows() {
    let mut store = CacheStore::new();
    store.insert_chat(row(1, 1)).unwrap();
    store.insert_profile(profile(1, 1, "A", 0)).unwrap();
    assert!(store.keys_unique());
    store.chats.push(row(1, 1));
    assert!(!store.keys_unique());
    let mut other = CacheStore::new();
    other.profiles.push(profile(1, 1, "A", 0));
    other.profiles.push(profile(1, 2, "B", 0));
    assert!(other.keys_unique());
    other.profiles.push(profile(1, 1, "C", 0));
    assert!(!other.keys_unique());
}

#[test]
fn duplicate_channel_and_member_conflict() {
    let mut store = CacheStore::new();
    assert!(store.insert_channel(ChannelListRow { id: 1 }).is_ok());
    assert!(store.insert_channel(ChannelListRow { id: 1 }).is_err());
    assert!(store.insert_channel(ChannelListRow { id: 2 }).is_ok());
    assert_eq!(store.channels.len(), 2);
    assert!(store.insert_member(Membership { channel_id: 1, user_id: 5 }).is_ok());
    assert!(store.insert_member(Membership { channel_id: 1, user_id: 5 }).is_err());
    assert!(store.insert_member(Membership { channel_id: 2, user_id: 5 }).is_ok());
    assert_eq!(store.members.len(), 2);
    assert!(store.keys_unique());
    store.channels.push(ChannelListRow { id: 2 });
    assert!(!store.keys_unique());
}

#[test]
fn open_channel_last_pair_wins() {
    let mut client = client_for_channel_42();
    let res = ChatOnResponse {
        channel_type: ChatOnChannelType::Unknown,
        watermark_user_ids: vec![1, 2, 1],
        watermarks: vec![100, 95, 80],
    };
    assert_eq!(client.open_channel(42, Ok(res)), Ok(None));
    assert_eq!(client.store.profile(42, 1).unwrap().watermark, 80);
    assert_eq!(client.store.profile(42, 2).unwrap().watermark, 95);
}

#[test]
fn open_outcome_maps_reconciliation_result() {
    assert_eq!(
        open_outcome(7, ChatOnChannelType::MemoChat, Ok(())),
        Ok(Some(ClientChannel::Normal(NormalChannel::new(7))))
    );
    assert_eq!(open_outcome(7, ChatOnChannelType::OpenMulti, Ok(())), Ok(None));
    assert_eq!(
        open_outcome(7, ChatOnChannelType::MemoChat, Err(StoreError::Backend)),
        Err(ClientError::Database(StoreError::Backend))
    );
}

#[test]
fn client_applies_pushed_read_to_its_own_cache() {
    let mut client = client_for_channel_42();
    let event = client.handle_command(StreamCommand::ChatRead(DecunRead { chat_id: 42, user_id: 2, watermark: 33 }));
    assert!(matches!(event, Ok(Some(_))));
    assert_eq!(client.store.profile(42, 2).unwrap().watermark, 33);
    assert_eq!(client.user_id(), 10);
}
