use vstd::prelude::*;

use crate::channel::{ClientChannel, NormalChannel};
use crate::event::ClientEvent;
use crate::handler::{apply_command, command_event, command_op, HandlerError, StreamCommand};
use crate::store::{
    apply_op, channel_ids_unique, has_channel, is_max_log_id, run_unit, set_watermark_rows,
    CacheStore, CacheView, ChannelListRow, StoreError, StoreOp, UserProfile,
};

verus! {

/// The status a client reports to the server.
#[derive(Clone, Copy, Debug, PartialEq, Eq, Structural)]
pub enum ClientStatus {
    Unlocked,
    Locked,
}

impl ClientStatus {
    /// The status code sent on the wire.
    pub fn code(&self) -> (r: i32)
        ensures
            r == match *self {
                ClientStatus::Unlocked => 1i32,
                ClientStatus::Locked => 2i32,
            },
    {
        match self {
            ClientStatus::Unlocked => 1,
            ClientStatus::Locked => 2,
        }
    }
}

/// A failed request to the remote service.
#[derive(Clone, Copy, Debug, PartialEq, Eq, Structural)]
pub enum RequestError {
    /// The connection failed.
    Transport,
    /// The server answered with a non-success status.
    Status(i32),
}

/// Why a client operation failed.
#[derive(Clone, Copy, Debug, PartialEq, Eq, Structural)]
pub enum ClientError {
    Request(RequestError),
    Database(StoreError),
}

/// The kind of a channel, as the open handshake reports it.
#[derive(Clone, Copy, Debug, PartialEq, Eq, Structural)]
pub enum ChatOnChannelType {
    DirectChat,
    MultiChat,
    MemoChat,
    OpenDirect,
    OpenMulti,
    /// A kind this client does not know.
    Unknown,
}

/// The answer to the open handshake: the channel's kind and, positionally
/// paired, its members and their read watermarks.
#[derive(Debug)]
pub struct ChatOnResponse {
    pub channel_type: ChatOnChannelType,
    pub watermark_user_ids: Vec<i64>,
    pub watermarks: Vec<i64>,
}

/// The watermark writes of an open handshake: one per paired
/// `(user id, watermark)`, up to the shorter of the two sequences.
pub open spec fn reconcile_ops(channel_id: i64, user_ids: Seq<i64>, watermarks: Seq<i64>) -> Seq<
    StoreOp,
> {
    Seq::new(
        if user_ids.len() <= watermarks.len() {
            user_ids.len()
        } else {
            watermarks.len()
        },
        |i: int|
            StoreOp::SetWatermark {
                channel_id,
                user_id: user_ids[i],
                watermark: watermarks[i],
            },
    )
}

/// The watermark a handshake reports for `user_id`: that of the last pair
/// naming the user, if any.
pub open spec fn reported_watermark(user_ids: Seq<i64>, watermarks: Seq<i64>, user_id: i64) -> Option<
    i64,
>
    decreases user_ids.len(),
{
    if user_ids.len() == 0 || watermarks.len() == 0 {
        None
    } else if user_ids.last() == user_id {
        Some(watermarks.last())
    } else {
        reported_watermark(user_ids.drop_last(), watermarks.drop_last(), user_id)
    }
}

/// The profile table after reconciliation: every profile of `channel_id`
/// whose user the handshake names takes the reported watermark.
pub open spec fn reconciled_profiles(
    s: Seq<UserProfile>,
    channel_id: i64,
    user_ids: Seq<i64>,
    watermarks: Seq<i64>,
) -> Seq<UserProfile> {
    Seq::new(
        s.len(),
        |j: int|
            if s[j].channel_id == channel_id && reported_watermark(
                user_ids,
                watermarks,
                s[j].user_id,
            ) is Some {
                UserProfile {
                    watermark: reported_watermark(user_ids, watermarks, s[j].user_id)->Some_0,
                    ..s[j]
                }
            } else {
                s[j]
            },
    )
}

/// Reconciling a handshake whose two sequences have the same length
/// succeeds, gives every profile of the channel that the handshake names
/// the watermark of the last pair naming its user, and changes nothing else.
pub proof fn lemma_reconcile_last_pair_wins(
    v: CacheView,
    channel_id: i64,
    user_ids: Seq<i64>,
    watermarks: Seq<i64>,
)
    requires
        user_ids.len() == watermarks.len(),
    ensures
        run_unit(v, reconcile_ops(channel_id, user_ids, watermarks)) == Ok::<
            CacheView,
            StoreError,
        >(CacheView { profiles: reconciled_profiles(v.profiles, channel_id, user_ids, watermarks), ..v }),
    decreases user_ids.len(),
{
    let ops = reconcile_ops(channel_id, user_ids, watermarks);
    if user_ids.len() == 0 {
        assert(reconciled_profiles(v.profiles, channel_id, user_ids, watermarks) =~= v.profiles);
    } else {
        let ids0 = user_ids.drop_last();
        let wms0 = watermarks.drop_last();
        assert(ops.drop_last() =~= reconcile_ops(channel_id, ids0, wms0));
        lemma_reconcile_last_pair_wins(v, channel_id, ids0, wms0);
        assert(set_watermark_rows(
            reconciled_profiles(v.profiles, channel_id, ids0, wms0),
            channel_id,
            user_ids.last(),
            watermarks.last(),
        ) =~= reconciled_profiles(v.profiles, channel_id, user_ids, watermarks));
    }
}

/// The channel handle for a channel kind, or `None` for a kind not supported.
pub open spec fn classify(channel_id: i64, kind: ChatOnChannelType) -> Option<ClientChannel> {
    match kind {
        ChatOnChannelType::DirectChat | ChatOnChannelType::MultiChat
        | ChatOnChannelType::MemoChat => Some(ClientChannel::Normal(NormalChannel { id: channel_id })),
        _ => None,
    }
}

/// The channel-list entries: each summary row paired with its item, in
/// order, dropping rows whose item is `None`.
pub open spec fn listed<T>(rows: Seq<ChannelListRow>, items: Seq<Option<T>>) -> Seq<(i64, T)>
    decreases rows.len(),
{
    if rows.len() == 0 || items.len() != rows.len() {
        Seq::empty()
    } else {
        let rest = listed(rows.drop_last(), items.drop_last());
        match items.last() {
            Some(item) => rest.push((rows.last().id, item)),
            None => rest,
        }
    }
}

/// No two entries share a channel id.
pub open spec fn ids_distinct<T>(list: Seq<(i64, T)>) -> bool {
    forall|a: int, b: int| 0 <= a < list.len() && 0 <= b < list.len() && a != b ==> list[a].0 != list[b].0
}

/// The channel list never holds the same channel id twice, is no longer
/// than the summary table, and names only channels of that table.
pub proof fn lemma_listed_ids<T>(rows: Seq<ChannelListRow>, items: Seq<Option<T>>)
    requires
        channel_ids_unique(rows),
    ensures
        listed(rows, items).len() <= rows.len(),
        ids_distinct(listed(rows, items)),
        forall|k: int|
            0 <= k < listed(rows, items).len() ==> has_channel(
                rows,
                #[trigger] listed(rows, items)[k].0,
            ),
    decreases rows.len(),
{
    if rows.len() == 0 || items.len() != rows.len() {
    } else {
        let pre = rows.drop_last();
        assert(channel_ids_unique(pre)) by {
            assert(forall|i: int| 0 <= i < pre.len() ==> pre[i] == rows[i]);
        }
        lemma_listed_ids(pre, items.drop_last());
        let rest = listed(pre, items.drop_last());
        let last = rows.len() - 1;
        assert forall|k: int| 0 <= k < rest.len() implies #[trigger] rest[k].0 != rows[last].id
            && has_channel(rows, rest[k].0) by {
            assert(has_channel(pre, rest[k].0));
            let i = choose|i: int| 0 <= i < pre.len() && pre[i].id == rest[k].0;
            assert(pre[i] == rows[i]);
        }
        match items.last() {
            Some(item) => {
                let l = rest.push((rows.last().id, item));
                assert(l == listed(rows, items));
                assert forall|k: int| 0 <= k < l.len() implies has_channel(rows, #[trigger] l[k].0) by {
                    if k == rest.len() {
                        assert(rows[last].id == l[k].0);
                    } else {
                        assert(l[k] == rest[k]);
                    }
                }
                assert forall|a: int, b: int|
                    0 <= a < l.len() && 0 <= b < l.len() && a != b implies l[a].0 != l[b].0 by {
                    if a < rest.len() && b < rest.len() {
                        assert(l[a] == rest[a] && l[b] == rest[b]);
                    } else if a < rest.len() {
                        assert(l[a] == rest[a]);
                    } else {
                        assert(l[b] == rest[b]);
                    }
                }
            },
            None => {},
        }
    }
}

/// The watermark writes for one open handshake.
pub fn watermark_ops(channel_id: i64, user_ids: &Vec<i64>, watermarks: &Vec<i64>) -> (r: Vec<
    StoreOp,
>)
    ensures
        r@ == reconcile_ops(channel_id, user_ids@, watermarks@),
{
    let mut ops: Vec<StoreOp> = Vec::new();
    let mut i: usize = 0;
    while i < user_ids.len() && i < watermarks.len()
        invariant
            i <= user_ids@.len(),
            i <= watermarks@.len(),
            ops@ =~= reconcile_ops(channel_id, user_ids@, watermarks@).subrange(0, i as int),
        decreases user_ids@.len() - i,
    {
        ops.push(
            StoreOp::SetWatermark { channel_id, user_id: user_ids[i], watermark: watermarks[i] },
        );
        i = i + 1;
    }
    assert(ops@ =~= reconcile_ops(channel_id, user_ids@, watermarks@));
    ops
}

/// The channel handle for channel `id` of kind `kind`: direct, group and
/// memo chats are normal channels; other kinds are not supported yet.
pub fn classify_channel(id: i64, kind: ChatOnChannelType) -> (r: Option<ClientChannel>)
    ensures
        r == classify(id, kind),
{
    match kind {
        ChatOnChannelType::DirectChat | ChatOnChannelType::MultiChat
        | ChatOnChannelType::MemoChat => Some(ClientChannel::Normal(NormalChannel::new(id))),
        _ => None,
    }
}

/// The outcome of opening channel `id` of kind `kind` once the outcome of
/// its reconciliation is known: the channel handle (or `None`) when the
/// watermarks were written, else the store error.
pub fn open_outcome(id: i64, kind: ChatOnChannelType, reconciled: Result<(), StoreError>) -> (r:
    Result<Option<ClientChannel>, ClientError>)
    ensures
        match reconciled {
            Ok(()) => r == Ok::<Option<ClientChannel>, ClientError>(classify(id, kind)),
            Err(e) => r == Err::<Option<ClientChannel>, ClientError>(ClientError::Database(e)),
        },
{
    match reconciled {
        Ok(()) => Ok(classify_channel(id, kind)),
        Err(e) => Err(ClientError::Database(e)),
    }
}

/// A client: its user and its local cache.
pub struct HeadlessTalk {
    pub user_id: i64,
    pub store: CacheStore,
}

impl HeadlessTalk {
    pub fn new(user_id: i64, store: CacheStore) -> (r: HeadlessTalk)
        ensures
            r.user_id == user_id,
            r.store == store,
    {
        HeadlessTalk { user_id, store }
    }

    pub fn user_id(&self) -> (r: i64)
        ensures
            r == self.user_id,
    {
        self.user_id
    }

    /// The checkpoint sent with the open handshake: the largest log id
    /// cached for channel `id`, if any.
    pub fn last_log_id(&self, id: i64) -> (r: Option<i64>)
        ensures
            is_max_log_id(self.store@.chats, id, r),
    {
        self.store.max_log_id(id)
    }

    /// Finishes opening channel `id` with the handshake's outcome: writes
    /// every reported watermark in one atomic unit, then classifies the
    /// channel. A failed request or write fails the whole call and leaves
    /// the cache as it was; a kind not supported gives `None`, after the
    /// watermarks were written.
    pub fn open_channel(&mut self, id: i64, response: Result<ChatOnResponse, RequestError>) -> (r:
        Result<Option<ClientChannel>, ClientError>)
        requires
            old(self).store.wf(),
        ensures
            final(self).store.wf(),
            final(self).user_id == old(self).user_id,
            match response {
                Err(e) => r == Err::<Option<ClientChannel>, ClientError>(ClientError::Request(e))
                    && final(self).store@ == old(self).store@,
                Ok(res) => match run_unit(
                    old(self).store@,
                    reconcile_ops(id, res.watermark_user_ids@, res.watermarks@),
                ) {
                    Ok(n) => r == Ok::<Option<ClientChannel>, ClientError>(
                        classify(id, res.channel_type),
                    ) && final(self).store@ == n,
                    Err(e) => r == Err::<Option<ClientChannel>, ClientError>(
                        ClientError::Database(e),
                    ) && final(self).store@ == old(self).store@,
                },
            },
    {
        let res = match response {
            Ok(res) => res,
            Err(e) => {
                return Err(ClientError::Request(e));
            },
        };
        let ops = watermark_ops(id, &res.watermark_user_ids, &res.watermarks);
        let reconciled = self.store.apply_unit(&ops);
        open_outcome(id, res.channel_type, reconciled)
    }

    /// Applies one pushed command to this client's cache (see `apply_command`).
    pub fn handle_command(&mut self, command: StreamCommand) -> (r: Result<
        Option<ClientEvent>,
        HandlerError,
    >)
        requires
            old(self).store.wf(),
        ensures
            final(self).store.wf(),
            final(self).user_id == old(self).user_id,
            match command_op(command) {
                None => r == Ok::<Option<ClientEvent>, HandlerError>(command_event(command))
                    && final(self).store@ == old(self).store@,
                Some(op) => match apply_op(old(self).store@, op) {
                    Ok(n) => r == Ok::<Option<ClientEvent>, HandlerError>(command_event(command))
                        && final(self).store@ == n,
                    Err(e) => r == Err::<Option<ClientEvent>, HandlerError>(
                        HandlerError::Store(e),
                    ) && final(self).store@ == old(self).store@,
                },
            },
    {
        apply_command(&mut self.store, command)
    }

    /// Pairs each cached channel summary with the item built for it, in
    /// order, dropping the rows whose item is `None`.
    pub fn channel_list<T>(&self, items: Vec<Option<T>>) -> (r: Vec<(i64, T)>)
        requires
            self.store.wf(),
            items@.len() == self.store@.channels.len(),
        ensures
            r@ == listed(self.store@.channels, items@),
            ids_distinct(r@),
            r@.len() <= self.store@.channels.len(),
    {
        proof {
            lemma_listed_ids(self.store@.channels, items@);
        }
        let mut items = items;
        let ghost given = items@;
        let mut list: Vec<(i64, T)> = Vec::new();
        let mut i: usize = 0;
        while i < items.len()
            invariant
                i <= items@.len(),
                items@.len() == given.len(),
                given.len() == self.store@.channels.len(),
                forall|k: int| i <= k < given.len() ==> items@[k] == given[k],
                list@ == listed(
                    self.store@.channels.subrange(0, i as int),
                    given.subrange(0, i as int),
                ),
            decreases given.len() - i,
        {
            let ghost rows = self.store@.channels.subrange(0, i as int + 1);
            let ghost its = given.subrange(0, i as int + 1);
            assert(rows.drop_last() =~= self.store@.channels.subrange(0, i as int));
            assert(its.drop_last() =~= given.subrange(0, i as int));
            let item = items[i].take();
            if let Some(x) = item {
                list.push((self.store.channels[i].id, x));
            }
            i = i + 1;
        }
        assert(self.store@.channels.subrange(0, i as int) =~= self.store@.channels);
        assert(given.subrange(0, i as int) =~= given);
        list
    }
}

} // verus!
