use vstd::prelude::*;

use crate::chat::{copy_text, ChatRow};

verus! {

/// A cached user profile, keyed by `(channel_id, user_id)`.
#[derive(Debug)]
pub struct UserProfile {
    pub channel_id: i64,
    pub user_id: i64,
    pub nickname: String,
    /// The highest log id this user is reported to have read.
    pub watermark: i64,
}

/// The latest known content of one metadata slot of a channel.
#[derive(Debug)]
pub struct ChannelMeta {
    pub channel_id: i64,
    pub meta_type: i32,
    pub content: String,
}

/// A user that belongs to a channel.
#[derive(Clone, Copy, Debug)]
pub struct Membership {
    pub channel_id: i64,
    pub user_id: i64,
}

/// A cached channel summary, listed in insertion order.
#[derive(Clone, Copy, Debug)]
pub struct ChannelListRow {
    pub id: i64,
}

/// What can go wrong in a store operation.
#[derive(Clone, Copy, Debug, PartialEq, Eq, Structural)]
pub enum StoreError {
    /// A row with the same key already exists.
    Conflict,
    /// The storage backend failed.
    Backend,
}

/// One write against the cache.
#[derive(Debug)]
pub enum StoreOp {
    InsertChat(ChatRow),
    SetWatermark { channel_id: i64, user_id: i64, watermark: i64 },
}

/// The contents of the cache, table by table.
pub ghost struct CacheView {
    pub chats: Seq<ChatRow>,
    pub profiles: Seq<UserProfile>,
    pub metas: Seq<ChannelMeta>,
    pub members: Seq<Membership>,
    pub channels: Seq<ChannelListRow>,
}

pub open spec fn has_chat(s: Seq<ChatRow>, channel_id: i64, log_id: i64) -> bool {
    exists|i: int| 0 <= i < s.len() && s[i].channel_id == channel_id && s[i].log_id == log_id
}

pub open spec fn chat_keys_unique(s: Seq<ChatRow>) -> bool {
    forall|i: int, j: int|
        0 <= i < s.len() && 0 <= j < s.len() && i != j ==> !(s[i].channel_id == s[j].channel_id
            && s[i].log_id == s[j].log_id)
}

/// The chat row stored under `(channel_id, log_id)`, if any.
pub open spec fn chat_at(s: Seq<ChatRow>, channel_id: i64, log_id: i64) -> Option<ChatRow> {
    if has_chat(s, channel_id, log_id) {
        Some(
            s[choose|i: int|
                0 <= i < s.len() && s[i].channel_id == channel_id && s[i].log_id == log_id],
        )
    } else {
        None
    }
}

pub open spec fn has_profile(s: Seq<UserProfile>, channel_id: i64, user_id: i64) -> bool {
    exists|i: int| 0 <= i < s.len() && s[i].channel_id == channel_id && s[i].user_id == user_id
}

pub open spec fn profile_keys_unique(s: Seq<UserProfile>) -> bool {
    forall|i: int, j: int|
        0 <= i < s.len() && 0 <= j < s.len() && i != j ==> !(s[i].channel_id == s[j].channel_id
            && s[i].user_id == s[j].user_id)
}

/// The profile table after every row keyed `(channel_id, user_id)` has its
/// watermark overwritten with `watermark`.
pub open spec fn set_watermark_rows(
    s: Seq<UserProfile>,
    channel_id: i64,
    user_id: i64,
    watermark: i64,
) -> Seq<UserProfile> {
    Seq::new(
        s.len(),
        |i: int|
            if s[i].channel_id == channel_id && s[i].user_id == user_id {
                UserProfile { watermark, ..s[i] }
            } else {
                s[i]
            },
    )
}

pub open spec fn has_meta(s: Seq<ChannelMeta>, channel_id: i64, meta_type: i32) -> bool {
    exists|i: int|
        0 <= i < s.len() && s[i].channel_id == channel_id && s[i].meta_type == meta_type
}

pub open spec fn meta_keys_unique(s: Seq<ChannelMeta>) -> bool {
    forall|i: int, j: int|
        0 <= i < s.len() && 0 <= j < s.len() && i != j ==> !(s[i].channel_id == s[j].channel_id
            && s[i].meta_type == s[j].meta_type)
}

/// The content of the metadata slot `(channel_id, meta_type)`, if any.
pub open spec fn meta_at(s: Seq<ChannelMeta>, channel_id: i64, meta_type: i32) -> Option<
    Seq<char>,
> {
    if has_meta(s, channel_id, meta_type) {
        Some(
            s[choose|i: int|
                0 <= i < s.len() && s[i].channel_id == channel_id && s[i].meta_type
                    == meta_type].content@,
        )
    } else {
        None
    }
}

/// The metadata table after `meta` is stored as the latest content of its slot.
pub open spec fn put_meta_rows(s: Seq<ChannelMeta>, meta: ChannelMeta) -> Seq<ChannelMeta> {
    if has_meta(s, meta.channel_id, meta.meta_type) {
        s.update(
            choose|i: int|
                0 <= i < s.len() && s[i].channel_id == meta.channel_id && s[i].meta_type
                    == meta.meta_type,
            meta,
        )
    } else {
        s.push(meta)
    }
}

pub open spec fn member_keys_unique(s: Seq<Membership>) -> bool {
    forall|i: int, j: int|
        0 <= i < s.len() && 0 <= j < s.len() && i != j ==> !(s[i].channel_id == s[j].channel_id
            && s[i].user_id == s[j].user_id)
}

pub open spec fn has_channel(s: Seq<ChannelListRow>, id: i64) -> bool {
    exists|i: int| 0 <= i < s.len() && s[i].id == id
}

pub open spec fn channel_ids_unique(s: Seq<ChannelListRow>) -> bool {
    forall|i: int, j: int| 0 <= i < s.len() && 0 <= j < s.len() && i != j ==> s[i].id != s[j].id
}

impl CacheView {
    /// Every table keeps at most one row per key.
    pub open spec fn wf(self) -> bool {
        &&& chat_keys_unique(self.chats)
        &&& profile_keys_unique(self.profiles)
        &&& meta_keys_unique(self.metas)
        &&& member_keys_unique(self.members)
        &&& channel_ids_unique(self.channels)
    }
}

/// The cache after one write, or the error that the write fails with.
pub open spec fn apply_op(v: CacheView, op: StoreOp) -> Result<CacheView, StoreError> {
    match op {
        StoreOp::InsertChat(row) => if has_chat(v.chats, row.channel_id, row.log_id) {
            Err(StoreError::Conflict)
        } else {
            Ok(CacheView { chats: v.chats.push(row), ..v })
        },
        StoreOp::SetWatermark { channel_id, user_id, watermark } => Ok(
            CacheView {
                profiles: set_watermark_rows(v.profiles, channel_id, user_id, watermark),
                ..v
            },
        ),
    }
}

/// The cache after a sequence of writes applied in order, or the first error.
pub open spec fn run_unit(v: CacheView, ops: Seq<StoreOp>) -> Result<CacheView, StoreError>
    decreases ops.len(),
{
    if ops.len() == 0 {
        Ok(v)
    } else {
        match run_unit(v, ops.drop_last()) {
            Ok(n) => apply_op(n, ops.last()),
            Err(e) => Err(e),
        }
    }
}

} // verus!

verus! {

impl UserProfile {
    pub fn duplicate(&self) -> (r: UserProfile)
        ensures
            r == *self,
    {
        UserProfile {
            channel_id: self.channel_id,
            user_id: self.user_id,
            nickname: self.nickname.clone(),
            watermark: self.watermark,
        }
    }
}

impl ChannelMeta {
    pub fn duplicate(&self) -> (r: ChannelMeta)
        ensures
            r == *self,
    {
        ChannelMeta {
            channel_id: self.channel_id,
            meta_type: self.meta_type,
            content: self.content.clone(),
        }
    }
}

impl StoreOp {
    pub fn duplicate(&self) -> (r: StoreOp)
        ensures
            r == *self,
    {
        match self {
            StoreOp::InsertChat(row) => StoreOp::InsertChat(row.duplicate()),
            StoreOp::SetWatermark { channel_id, user_id, watermark } => StoreOp::SetWatermark {
                channel_id: *channel_id,
                user_id: *user_id,
                watermark: *watermark,
            },
        }
    }
}

/// The local cache: chat history, channel metadata, profiles with read
/// cursors, memberships and channel summaries.
pub struct CacheStore {
    pub chats: Vec<ChatRow>,
    pub profiles: Vec<UserProfile>,
    pub metas: Vec<ChannelMeta>,
    pub members: Vec<Membership>,
    pub channels: Vec<ChannelListRow>,
}

impl View for CacheStore {
    type V = CacheView;

    open spec fn view(&self) -> CacheView {
        CacheView {
            chats: self.chats@,
            profiles: self.profiles@,
            metas: self.metas@,
            members: self.members@,
            channels: self.channels@,
        }
    }
}

impl CacheStore {
    pub open spec fn wf(&self) -> bool {
        self@.wf()
    }

    /// An empty cache.
    pub fn new() -> (r: CacheStore)
        ensures
            r.wf(),
            r@.chats.len() == 0,
            r@.profiles.len() == 0,
            r@.metas.len() == 0,
            r@.members.len() == 0,
            r@.channels.len() == 0,
    {
        CacheStore {
            chats: Vec::new(),
            profiles: Vec::new(),
            metas: Vec::new(),
            members: Vec::new(),
            channels: Vec::new(),
        }
    }

    /// A copy of the whole cache.
    pub fn duplicate(&self) -> (r: CacheStore)
        ensures
            r@ == self@,
    {
        let mut chats: Vec<ChatRow> = Vec::new();
        let mut i: usize = 0;
        while i < self.chats.len()
            invariant
                i <= self.chats@.len(),
                chats@ == self.chats@.subrange(0, i as int),
            decreases self.chats@.len() - i,
        {
            chats.push(self.chats[i].duplicate());
            i = i + 1;
        }
        let mut profiles: Vec<UserProfile> = Vec::new();
        let mut i: usize = 0;
        while i < self.profiles.len()
            invariant
                i <= self.profiles@.len(),
                profiles@ == self.profiles@.subrange(0, i as int),
            decreases self.profiles@.len() - i,
        {
            profiles.push(self.profiles[i].duplicate());
            i = i + 1;
        }
        let mut metas: Vec<ChannelMeta> = Vec::new();
        let mut i: usize = 0;
        while i < self.metas.len()
            invariant
                i <= self.metas@.len(),
                metas@ == self.metas@.subrange(0, i as int),
            decreases self.metas@.len() - i,
        {
            metas.push(self.metas[i].duplicate());
            i = i + 1;
        }
        let mut members: Vec<Membership> = Vec::new();
        let mut i: usize = 0;
        while i < self.members.len()
            invariant
                i <= self.members@.len(),
                members@ == self.members@.subrange(0, i as int),
            decreases self.members@.len() - i,
        {
            members.push(self.members[i]);
            i = i + 1;
        }
        let mut channels: Vec<ChannelListRow> = Vec::new();
        let mut i: usize = 0;
        while i < self.channels.len()
            invariant
                i <= self.channels@.len(),
                channels@ == self.channels@.subrange(0, i as int),
            decreases self.channels@.len() - i,
        {
            channels.push(self.channels[i]);
            i = i + 1;
        }
        assert(chats@ =~= self.chats@);
        assert(profiles@ =~= self.profiles@);
        assert(metas@ =~= self.metas@);
        assert(members@ =~= self.members@);
        assert(channels@ =~= self.channels@);
        CacheStore { chats, profiles, metas, members, channels }
    }
}

} // verus!

verus! {

impl CacheStore {
    /// Whether a chat row is stored under `(channel_id, log_id)`.
    pub fn contains_chat(&self, channel_id: i64, log_id: i64) -> (r: bool)
        ensures
            r == has_chat(self@.chats, channel_id, log_id),
    {
        let mut i: usize = 0;
        while i < self.chats.len()
            invariant
                i <= self.chats@.len(),
                forall|k: int|
                    0 <= k < i ==> !(self.chats@[k].channel_id == channel_id
                        && self.chats@[k].log_id == log_id),
            decreases self.chats@.len() - i,
        {
            if self.chats[i].channel_id == channel_id && self.chats[i].log_id == log_id {
                return true;
            }
            i = i + 1;
        }
        false
    }

    /// Inserts a chat row; a row with the same `(channel_id, log_id)` is a conflict.
    pub fn insert_chat(&mut self, row: ChatRow) -> (r: Result<(), StoreError>)
        requires
            old(self).wf(),
        ensures
            final(self).wf(),
            match apply_op(old(self)@, StoreOp::InsertChat(row)) {
                Ok(n) => r == Ok::<(), StoreError>(()) && final(self)@ == n,
                Err(e) => r == Err::<(), StoreError>(e) && final(self)@ == old(self)@,
            },
    {
        if self.contains_chat(row.channel_id, row.log_id) {
            return Err(StoreError::Conflict);
        }
        self.chats.push(row);
        Ok(())
    }

    /// Overwrites the watermark of the profile keyed `(channel_id, user_id)`,
    /// whatever it was; returns how many rows changed.
    pub fn set_watermark(&mut self, channel_id: i64, user_id: i64, watermark: i64) -> (r: usize)
        requires
            old(self).wf(),
        ensures
            final(self).wf(),
            final(self)@ == (CacheView {
                profiles: set_watermark_rows(old(self)@.profiles, channel_id, user_id, watermark),
                ..old(self)@
            }),
            r == if has_profile(old(self)@.profiles, channel_id, user_id) {
                1usize
            } else {
                0usize
            },
    {
        let ghost before = self.profiles@;
        let mut changed: usize = 0;
        let mut i: usize = 0;
        while i < self.profiles.len()
            invariant
                i <= self.profiles@.len(),
                self.profiles@.len() == before.len(),
                self.chats == old(self).chats,
                self.metas == old(self).metas,
                self.members == old(self).members,
                self.channels == old(self).channels,
                before == old(self).profiles@,
                profile_keys_unique(before),
                forall|k: int|
                    0 <= k < i ==> self.profiles@[k] == set_watermark_rows(
                        before,
                        channel_id,
                        user_id,
                        watermark,
                    )[k],
                forall|k: int| i <= k < before.len() ==> self.profiles@[k] == before[k],
                changed == if exists|k: int|
                    0 <= k < i && before[k].channel_id == channel_id && before[k].user_id
                        == user_id {
                    1usize
                } else {
                    0usize
                },
            decreases before.len() - i,
        {
            if self.profiles[i].channel_id == channel_id && self.profiles[i].user_id == user_id {
                self.profiles[i].watermark = watermark;
                changed = 1;
                assert(before[i as int].channel_id == channel_id && before[i as int].user_id
                    == user_id);
            } else {
                assert(!(before[i as int].channel_id == channel_id && before[i as int].user_id
                    == user_id));
                assert(forall|k: int|
                    0 <= k < i + 1 && before[k].channel_id == channel_id && before[k].user_id
                        == user_id ==> 0 <= k < i);
            }
            i = i + 1;
        }
        assert(self.profiles@ =~= set_watermark_rows(before, channel_id, user_id, watermark));
        changed
    }

    /// Applies one write; returns how many rows it changed.
    pub fn apply(&mut self, op: StoreOp) -> (r: Result<usize, StoreError>)
        requires
            old(self).wf(),
        ensures
            final(self).wf(),
            match apply_op(old(self)@, op) {
                Ok(n) => r is Ok && final(self)@ == n,
                Err(e) => r == Err::<usize, StoreError>(e) && final(self)@ == old(self)@,
            },
    {
        match op {
            StoreOp::InsertChat(row) => match self.insert_chat(row) {
                Ok(()) => Ok(1),
                Err(e) => Err(e),
            },
            StoreOp::SetWatermark { channel_id, user_id, watermark } => Ok(
                self.set_watermark(channel_id, user_id, watermark),
            ),
        }
    }

    /// Applies a sequence of writes as one atomic unit: either all of them
    /// take effect, or, when one fails, none does.
    pub fn apply_unit(&mut self, ops: &Vec<StoreOp>) -> (r: Result<(), StoreError>)
        requires
            old(self).wf(),
        ensures
            final(self).wf(),
            match run_unit(old(self)@, ops@) {
                Ok(n) => r == Ok::<(), StoreError>(()) && final(self)@ == n,
                Err(e) => r == Err::<(), StoreError>(e) && final(self)@ == old(self)@,
            },
    {
        let mut work = self.duplicate();
        let mut i: usize = 0;
        while i < ops.len()
            invariant
                i <= ops@.len(),
                work.wf(),
                self.wf(),
                self@ == old(self)@,
                run_unit(self@, ops@.subrange(0, i as int)) == Ok::<CacheView, StoreError>(
                    work@,
                ),
            decreases ops@.len() - i,
        {
            let ghost prefix = ops@.subrange(0, i as int + 1);
            assert(prefix.drop_last() =~= ops@.subrange(0, i as int));
            let res = work.apply(ops[i].duplicate());
            if let Err(e) = res {
                proof {
                    lemma_run_unit_err_extends(self@, ops@, i as int + 1, e);
                }
                return Err(e);
            }
            i = i + 1;
        }
        assert(ops@.subrange(0, ops@.len() as int) =~= ops@);
        *self = work;
        Ok(())
    }
}

/// A unit that fails on a prefix fails with the same error as a whole.
proof fn lemma_run_unit_err_extends(v: CacheView, ops: Seq<StoreOp>, n: int, e: StoreError)
    requires
        0 <= n <= ops.len(),
        run_unit(v, ops.subrange(0, n)) == Err::<CacheView, StoreError>(e),
    ensures
        run_unit(v, ops) == Err::<CacheView, StoreError>(e),
    decreases ops.len() - n,
{
    if n < ops.len() {
        let next = ops.subrange(0, n + 1);
        assert(next.drop_last() =~= ops.subrange(0, n));
        lemma_run_unit_err_extends(v, ops, n + 1, e);
    } else {
        assert(ops.subrange(0, n) =~= ops);
    }
}

} // verus!

verus! {

pub open spec fn is_member(s: Seq<Membership>, channel_id: i64, user_id: i64) -> bool {
    exists|i: int| 0 <= i < s.len() && s[i].channel_id == channel_id && s[i].user_id == user_id
}

/// The profiles of a channel's members, in the order of the profile table.
pub open spec fn member_profiles(v: CacheView, channel_id: i64) -> Seq<UserProfile> {
    v.profiles.filter(is_member_profile(v.members, channel_id))
}

pub open spec fn is_member_profile(members: Seq<Membership>, channel_id: i64) -> spec_fn(
    UserProfile,
) -> bool {
    |p: UserProfile| p.channel_id == channel_id && is_member(members, channel_id, p.user_id)
}

/// The largest log id cached for a channel, if any.
pub open spec fn is_max_log_id(s: Seq<ChatRow>, channel_id: i64, m: Option<i64>) -> bool {
    match m {
        None => forall|i: int| 0 <= i < s.len() ==> s[i].channel_id != channel_id,
        Some(x) => {
            &&& exists|i: int| 0 <= i < s.len() && s[i].channel_id == channel_id && s[i].log_id == x
            &&& forall|i: int| 0 <= i < s.len() && s[i].channel_id == channel_id ==> s[i].log_id <= x
        },
    }
}

impl CacheStore {
    /// The largest log id cached for `channel_id`, or `None` when the channel
    /// has no cached chat.
    pub fn max_log_id(&self, channel_id: i64) -> (r: Option<i64>)
        ensures
            is_max_log_id(self@.chats, channel_id, r),
    {
        let mut best: Option<i64> = None;
        let mut i: usize = 0;
        while i < self.chats.len()
            invariant
                i <= self.chats@.len(),
                is_max_log_id(self.chats@.subrange(0, i as int), channel_id, best),
            decreases self.chats@.len() - i,
        {
            let ghost pre = self.chats@.subrange(0, i as int);
            let ghost next = self.chats@.subrange(0, i as int + 1);
            assert(forall|k: int| 0 <= k < i ==> next[k] == pre[k]);
            let row = &self.chats[i];
            if row.channel_id == channel_id {
                match best {
                    Some(b) if b >= row.log_id => {
                        assert(is_max_log_id(next, channel_id, best));
                    },
                    _ => {
                        best = Some(row.log_id);
                        assert(next[i as int].channel_id == channel_id);
                    },
                }
            } else {
                assert(is_max_log_id(next, channel_id, best));
            }
            i = i + 1;
        }
        assert(self.chats@.subrange(0, self.chats@.len() as int) =~= self.chats@);
        best
    }

    /// The chat row stored under `(channel_id, log_id)`.
    pub fn find_chat(&self, channel_id: i64, log_id: i64) -> (r: Option<ChatRow>)
        requires
            self.wf(),
        ensures
            r == chat_at(self@.chats, channel_id, log_id),
    {
        let mut i: usize = 0;
        while i < self.chats.len()
            invariant
                i <= self.chats@.len(),
                self.wf(),
                forall|k: int|
                    0 <= k < i ==> !(self.chats@[k].channel_id == channel_id
                        && self.chats@[k].log_id == log_id),
            decreases self.chats@.len() - i,
        {
            if self.chats[i].channel_id == channel_id && self.chats[i].log_id == log_id {
                proof {
                    let s = self@.chats;
                    assert(s[i as int].channel_id == channel_id && s[i as int].log_id == log_id);
                    let j = choose|j: int|
                        0 <= j < s.len() && s[j].channel_id == channel_id && s[j].log_id == log_id;
                    assert(j == i as int);
                }
                return Some(self.chats[i].duplicate());
            }
            i = i + 1;
        }
        None
    }

    /// The content of the metadata slot `(channel_id, meta_type)`.
    pub fn meta_content(&self, channel_id: i64, meta_type: i32) -> (r: Option<String>)
        requires
            self.wf(),
        ensures
            match r {
                Some(c) => meta_at(self@.metas, channel_id, meta_type) == Some(c@),
                None => meta_at(self@.metas, channel_id, meta_type) is None,
            },
    {
        let mut i: usize = 0;
        while i < self.metas.len()
            invariant
                i <= self.metas@.len(),
                self.wf(),
                forall|k: int|
                    0 <= k < i ==> !(self.metas@[k].channel_id == channel_id
                        && self.metas@[k].meta_type == meta_type),
            decreases self.metas@.len() - i,
        {
            if self.metas[i].channel_id == channel_id && self.metas[i].meta_type == meta_type {
                proof {
                    let s = self@.metas;
                    assert(s[i as int].channel_id == channel_id && s[i as int].meta_type
                        == meta_type);
                    let j = choose|j: int|
                        0 <= j < s.len() && s[j].channel_id == channel_id && s[j].meta_type
                            == meta_type;
                    assert(j == i as int);
                }
                return Some(self.metas[i].content.clone());
            }
            i = i + 1;
        }
        None
    }

    /// The profile keyed `(channel_id, user_id)`.
    pub fn profile(&self, channel_id: i64, user_id: i64) -> (r: Option<UserProfile>)
        requires
            self.wf(),
        ensures
            match r {
                Some(p) => has_profile(self@.profiles, channel_id, user_id) && (exists|i: int|
                    0 <= i < self@.profiles.len() && self@.profiles[i] == p && p.channel_id
                        == channel_id && p.user_id == user_id),
                None => !has_profile(self@.profiles, channel_id, user_id),
            },
    {
        let mut i: usize = 0;
        while i < self.profiles.len()
            invariant
                i <= self.profiles@.len(),
                forall|k: int|
                    0 <= k < i ==> !(self.profiles@[k].channel_id == channel_id
                        && self.profiles@[k].user_id == user_id),
            decreases self.profiles@.len() - i,
        {
            if self.profiles[i].channel_id == channel_id && self.profiles[i].user_id == user_id {
                assert(self@.profiles[i as int].channel_id == channel_id
                    && self@.profiles[i as int].user_id == user_id);
                return Some(self.profiles[i].duplicate());
            }
            i = i + 1;
        }
        None
    }

    /// Whether `user_id` belongs to `channel_id`.
    pub fn contains_member(&self, channel_id: i64, user_id: i64) -> (r: bool)
        ensures
            r == is_member(self@.members, channel_id, user_id),
    {
        let mut i: usize = 0;
        while i < self.members.len()
            invariant
                i <= self.members@.len(),
                forall|k: int|
                    0 <= k < i ==> !(self.members@[k].channel_id == channel_id
                        && self.members@[k].user_id == user_id),
            decreases self.members@.len() - i,
        {
            if self.members[i].channel_id == channel_id && self.members[i].user_id == user_id {
                return true;
            }
            i = i + 1;
        }
        false
    }

    /// Joins memberships with profiles for one channel: the profile of every
    /// member of `channel_id`, in the order of the profile table.
    pub fn members_of(&self, channel_id: i64) -> (r: Vec<UserProfile>)
        ensures
            r@ == member_profiles(self@, channel_id),
    {
        let mut out: Vec<UserProfile> = Vec::new();
        let mut i: usize = 0;
        while i < self.profiles.len()
            invariant
                i <= self.profiles@.len(),
                out@ == self.profiles@.subrange(0, i as int).filter(
                    is_member_profile(self@.members, channel_id),
                ),
            decreases self.profiles@.len() - i,
        {
            let ghost pre = self.profiles@.subrange(0, i as int);
            assert(self.profiles@.subrange(0, i as int + 1) =~= pre.push(self.profiles@[i as int]));
            assert(pre.push(self.profiles@[i as int]).drop_last() =~= pre);
            reveal(Seq::filter);
            let p = &self.profiles[i];
            let mut keep = false;
            if p.channel_id == channel_id {
                keep = self.contains_member(channel_id, p.user_id);
            }
            assert(*p == self.profiles@[i as int]);
            assert(keep == is_member_profile(self@.members, channel_id)(*p));
            if keep {
                out.push(p.duplicate());
            }
            i = i + 1;
        }
        assert(self.profiles@.subrange(0, self.profiles@.len() as int) =~= self.profiles@);
        out
    }
}

} // verus!

verus! {

impl CacheStore {
    /// Adds a profile row; a row with the same `(channel_id, user_id)` is a conflict.
    pub fn insert_profile(&mut self, profile: UserProfile) -> (r: Result<(), StoreError>)
        requires
            old(self).wf(),
        ensures
            final(self).wf(),
            if has_profile(old(self)@.profiles, profile.channel_id, profile.user_id) {
                r == Err::<(), StoreError>(StoreError::Conflict) && final(self)@ == old(self)@
            } else {
                r == Ok::<(), StoreError>(()) && final(self)@ == (CacheView {
                    profiles: old(self)@.profiles.push(profile),
                    ..old(self)@
                })
            },
    {
        let mut i: usize = 0;
        while i < self.profiles.len()
            invariant
                i <= self.profiles@.len(),
                self.wf(),
                self@ == old(self)@,
                forall|k: int|
                    0 <= k < i ==> !(self.profiles@[k].channel_id == profile.channel_id
                        && self.profiles@[k].user_id == profile.user_id),
            decreases self.profiles@.len() - i,
        {
            if self.profiles[i].channel_id == profile.channel_id && self.profiles[i].user_id
                == profile.user_id {
                return Err(StoreError::Conflict);
            }
            i = i + 1;
        }
        self.profiles.push(profile);
        Ok(())
    }

    /// Stores `meta` as the latest content of its slot `(channel_id,
    /// meta_type)`: the slot's row is replaced, or added when there is none.
    pub fn put_meta(&mut self, meta: ChannelMeta)
        requires
            old(self).wf(),
        ensures
            final(self).wf(),
            final(self)@ == (CacheView {
                metas: put_meta_rows(old(self)@.metas, meta),
                ..old(self)@
            }),
    {
        let ghost before = self.metas@;
        let mut i: usize = 0;
        while i < self.metas.len()
            invariant
                i <= self.metas@.len(),
                self.wf(),
                self@ == old(self)@,
                before == self.metas@,
                forall|k: int|
                    0 <= k < i ==> !(self.metas@[k].channel_id == meta.channel_id
                        && self.metas@[k].meta_type == meta.meta_type),
            decreases self.metas@.len() - i,
        {
            if self.metas[i].channel_id == meta.channel_id && self.metas[i].meta_type
                == meta.meta_type {
                proof {
                    assert(before[i as int].channel_id == meta.channel_id
                        && before[i as int].meta_type == meta.meta_type);
                    let j = choose|j: int|
                        0 <= j < before.len() && before[j].channel_id == meta.channel_id
                            && before[j].meta_type == meta.meta_type;
                    assert(j == i as int);
                }
                self.metas.set(i, meta);
                proof {
                    let s = self.metas@;
                    assert forall|a: int, b: int|
                        0 <= a < s.len() && 0 <= b < s.len() && a != b implies !(s[a].channel_id
                        == s[b].channel_id && s[a].meta_type == s[b].meta_type) by {
                        if a != i && b != i {
                            assert(s[a] == before[a] && s[b] == before[b]);
                        }
                    }
                }
                return;
            }
            i = i + 1;
        }
        self.metas.push(meta);
    }

    /// Records that a user belongs to a channel; recording the same
    /// `(channel_id, user_id)` twice is a conflict.
    pub fn insert_member(&mut self, member: Membership) -> (r: Result<(), StoreError>)
        requires
            old(self).wf(),
        ensures
            final(self).wf(),
            if is_member(old(self)@.members, member.channel_id, member.user_id) {
                r == Err::<(), StoreError>(StoreError::Conflict) && final(self)@ == old(self)@
            } else {
                r == Ok::<(), StoreError>(()) && final(self)@ == (CacheView {
                    members: old(self)@.members.push(member),
                    ..old(self)@
                })
            },
    {
        if self.contains_member(member.channel_id, member.user_id) {
            return Err(StoreError::Conflict);
        }
        self.members.push(member);
        Ok(())
    }

    /// Appends a channel summary to the channel list; a summary with the
    /// same id is a conflict.
    pub fn insert_channel(&mut self, row: ChannelListRow) -> (r: Result<(), StoreError>)
        requires
            old(self).wf(),
        ensures
            final(self).wf(),
            if has_channel(old(self)@.channels, row.id) {
                r == Err::<(), StoreError>(StoreError::Conflict) && final(self)@ == old(self)@
            } else {
                r == Ok::<(), StoreError>(()) && final(self)@ == (CacheView {
                    channels: old(self)@.channels.push(row),
                    ..old(self)@
                })
            },
    {
        let mut i: usize = 0;
        while i < self.channels.len()
            invariant
                i <= self.channels@.len(),
                self.wf(),
                self@ == old(self)@,
                forall|k: int| 0 <= k < i ==> self.channels@[k].id != row.id,
            decreases self.channels@.len() - i,
        {
            if self.channels[i].id == row.id {
                return Err(StoreError::Conflict);
            }
            i = i + 1;
        }
        self.channels.push(row);
        Ok(())
    }
}

} // verus!

verus! {

impl CacheStore {
    /// Whether every table keeps at most one row per key.
    pub fn keys_unique(&self) -> (r: bool)
        ensures
            r == self.wf(),
    {
        let mut i: usize = 0;
        while i < self.chats.len()
            invariant
                i <= self.chats@.len(),
                chat_keys_unique(self.chats@.subrange(0, i as int)),
            decreases self.chats@.len() - i,
        {
            let mut j: usize = 0;
            while j < i
                invariant
                    i < self.chats@.len(),
                    j <= i,
                    chat_keys_unique(self.chats@.subrange(0, i as int)),
                    forall|b: int|
                        0 <= b < j ==> !(self.chats@[b].channel_id == self.chats@[i as int].channel_id
                            && self.chats@[b].log_id == self.chats@[i as int].log_id),
                decreases i - j,
            {
                if self.chats[j].channel_id == self.chats[i].channel_id && self.chats[j].log_id
                    == self.chats[i].log_id {
                    assert(!chat_keys_unique(self.chats@)) by {
                        assert(self.chats@[j as int].channel_id == self.chats@[i as int].channel_id);
                    }
                    return false;
                }
                j = j + 1;
            }
            assert(chat_keys_unique(self.chats@.subrange(0, i as int + 1))) by {
                let s = self.chats@.subrange(0, i as int + 1);
                assert(forall|a: int| 0 <= a < i ==> s[a] == self.chats@.subrange(0, i as int)[a]);
            }
            i = i + 1;
        }
        assert(self.chats@.subrange(0, i as int) =~= self.chats@);
        let mut i: usize = 0;
        while i < self.profiles.len()
            invariant
                i <= self.profiles@.len(),
                profile_keys_unique(self.profiles@.subrange(0, i as int)),
            decreases self.profiles@.len() - i,
        {
            let mut j: usize = 0;
            while j < i
                invariant
                    i < self.profiles@.len(),
                    j <= i,
                    profile_keys_unique(self.profiles@.subrange(0, i as int)),
                    forall|b: int|
                        0 <= b < j ==> !(self.profiles@[b].channel_id == self.profiles@[i as int].channel_id
                            && self.profiles@[b].user_id == self.profiles@[i as int].user_id),
                decreases i - j,
            {
                if self.profiles[j].channel_id == self.profiles[i].channel_id && self.profiles[j].user_id
                    == self.profiles[i].user_id {
                    assert(!profile_keys_unique(self.profiles@)) by {
                        assert(self.profiles@[j as int].channel_id == self.profiles@[i as int].channel_id);
                    }
                    return false;
                }
                j = j + 1;
            }
            assert(profile_keys_unique(self.profiles@.subrange(0, i as int + 1))) by {
                let s = self.profiles@.subrange(0, i as int + 1);
                assert(forall|a: int| 0 <= a < i ==> s[a] == self.profiles@.subrange(0, i as int)[a]);
            }
            i = i + 1;
        }
        assert(self.profiles@.subrange(0, i as int) =~= self.profiles@);
        let mut i: usize = 0;
        while i < self.metas.len()
            invariant
                i <= self.metas@.len(),
                meta_keys_unique(self.metas@.subrange(0, i as int)),
            decreases self.metas@.len() - i,
        {
            let mut j: usize = 0;
            while j < i
                invariant
                    i < self.metas@.len(),
                    j <= i,
                    meta_keys_unique(self.metas@.subrange(0, i as int)),
                    forall|b: int|
                        0 <= b < j ==> !(self.metas@[b].channel_id == self.metas@[i as int].channel_id
                            && self.metas@[b].meta_type == self.metas@[i as int].meta_type),
                decreases i - j,
            {
                if self.metas[j].channel_id == self.metas[i].channel_id && self.metas[j].meta_type
                    == self.metas[i].meta_type {
                    assert(!meta_keys_unique(self.metas@)) by {
                        assert(self.metas@[j as int].channel_id == self.metas@[i as int].channel_id);
                    }
                    return false;
                }
                j = j + 1;
            }
            assert(meta_keys_unique(self.metas@.subrange(0, i as int + 1))) by {
                let s = self.metas@.subrange(0, i as int + 1);
                assert(forall|a: int| 0 <= a < i ==> s[a] == self.metas@.subrange(0, i as int)[a]);
            }
            i = i + 1;
        }
        assert(self.metas@.subrange(0, i as int) =~= self.metas@);
        let mut i: usize = 0;
        while i < self.members.len()
            invariant
                i <= self.members@.len(),
                chat_keys_unique(self.chats@),
                profile_keys_unique(self.profiles@),
                meta_keys_unique(self.metas@),
                
                member_keys_unique(self.members@.subrange(0, i as int)),
            decreases self.members@.len() - i,
        {
            let mut j: usize = 0;
            while j < i
                invariant
                    i < self.members@.len(),
                    j <= i,
                    member_keys_unique(self.members@.subrange(0, i as int)),
                    forall|b: int|
                        0 <= b < j ==> !(self.members@[b].channel_id == self.members@[i as int].channel_id
                            && self.members@[b].user_id == self.members@[i as int].user_id),
                decreases i - j,
            {
                if self.members[j].channel_id == self.members[i].channel_id && self.members[j].user_id
                    == self.members[i].user_id {
                    assert(!member_keys_unique(self.members@)) by {
                        assert(self.members@[j as int] == self.members@[j as int]);
                    }
                    return false;
                }
                j = j + 1;
            }
            assert(member_keys_unique(self.members@.subrange(0, i as int + 1))) by {
                let s = self.members@.subrange(0, i as int + 1);
                assert(forall|a: int| 0 <= a < i ==> s[a] == self.members@.subrange(0, i as int)[a]);
            }
            i = i + 1;
        }
        assert(self.members@.subrange(0, i as int) =~= self.members@);
        let mut i: usize = 0;
        while i < self.channels.len()
            invariant
                i <= self.channels@.len(),
                chat_keys_unique(self.chats@),
                profile_keys_unique(self.profiles@),
                meta_keys_unique(self.metas@),
                member_keys_unique(self.members@),
                channel_ids_unique(self.channels@.subrange(0, i as int)),
            decreases self.channels@.len() - i,
        {
            let mut j: usize = 0;
            while j < i
                invariant
                    i < self.channels@.len(),
                    j <= i,
                    channel_ids_unique(self.channels@.subrange(0, i as int)),
                    forall|b: int|
                        0 <= b < j ==> !(self.channels@[b].id == self.channels@[i as int].id),
                decreases i - j,
            {
                if self.channels[j].id == self.channels[i].id {
                    assert(!channel_ids_unique(self.channels@)) by {
                        assert(self.channels@[j as int] == self.channels@[j as int]);
                    }
                    return false;
                }
                j = j + 1;
            }
            assert(channel_ids_unique(self.channels@.subrange(0, i as int + 1))) by {
                let s = self.channels@.subrange(0, i as int + 1);
                assert(forall|a: int| 0 <= a < i ==> s[a] == self.channels@.subrange(0, i as int)[a]);
            }
            i = i + 1;
        }
        assert(self.channels@.subrange(0, i as int) =~= self.channels@);
        true
    }
}

} // verus!
