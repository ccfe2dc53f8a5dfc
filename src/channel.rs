use vstd::prelude::*;

use crate::store::{meta_at, member_profiles, CacheStore, ChannelListRow, UserProfile};

verus! {

/// Metadata slot holding a channel's title.
pub const META_TITLE: i32 = 3;

/// Metadata slot holding a channel's profile image URL.
pub const META_PROFILE: i32 = 4;

/// A direct, group or memo chat channel.
#[derive(Clone, Copy, Debug, PartialEq, Eq, Structural)]
pub struct NormalChannel {
    pub id: i64,
}

/// A channel the client can use.
#[derive(Clone, Copy, Debug, PartialEq, Eq, Structural)]
pub enum ClientChannel {
    Normal(NormalChannel),
}

impl NormalChannel {
    pub fn new(id: i64) -> (r: NormalChannel)
        ensures
            r.id == id,
    {
        NormalChannel { id }
    }

    pub fn id(&self) -> (r: i64)
        ensures
            r == self.id,
    {
        self.id
    }

    /// The cached profile of every member of this channel.
    pub fn users(&self, store: &CacheStore) -> (r: Vec<UserProfile>)
        ensures
            r@ == member_profiles(store@, self.id),
    {
        store.members_of(self.id)
    }
}

/// How a channel is shown in the channel list.
#[derive(Debug)]
pub struct ListChannelProfile {
    pub name: String,
    pub image_url: Option<String>,
}

/// The nicknames of `users`, in order, separated by `", "`.
pub open spec fn joined_names(users: Seq<UserProfile>) -> Seq<char>
    decreases users.len(),
{
    if users.len() == 0 {
        Seq::empty()
    } else if users.len() == 1 {
        users[0].nickname@
    } else {
        joined_names(users.drop_last()) + seq![',', ' '] + users.last().nickname@
    }
}

/// The nicknames of `users`, in order, separated by `", "`.
pub fn join_nicknames(users: &[UserProfile]) -> (r: String)
    ensures
        r@ == joined_names(users@),
{
    let mut name = String::new();
    let mut i: usize = 0;
    while i < users.len()
        invariant
            i <= users@.len(),
            name@ == joined_names(users@.subrange(0, i as int)),
        decreases users@.len() - i,
    {
        let ghost next = users@.subrange(0, i as int + 1);
        assert(next.drop_last() =~= users@.subrange(0, i as int));
        if i > 0 {
            proof {
                reveal_strlit(", ");
            }
            name.append(", ");
        }
        name.append(users[i].nickname.as_str());
        i = i + 1;
    }
    assert(users@.subrange(0, users@.len() as int) =~= users@);
    name
}

/// Derives the list entry of channel `row`: its title when one is cached,
/// else the nicknames of `display_users` joined with `", "`; and its
/// profile image when one is cached.
pub fn load_list_profile(
    store: &CacheStore,
    display_users: &[UserProfile],
    row: &ChannelListRow,
) -> (r: ListChannelProfile)
    requires
        store.wf(),
    ensures
        r.name@ == match meta_at(store@.metas, row.id, META_TITLE) {
            Some(title) => title,
            None => joined_names(display_users@),
        },
        match meta_at(store@.metas, row.id, META_PROFILE) {
            Some(url) => r.image_url is Some && r.image_url->Some_0@ == url,
            None => r.image_url is None,
        },
{
    let title = store.meta_content(row.id, META_TITLE);
    let image_url = store.meta_content(row.id, META_PROFILE);
    let name = match title {
        Some(t) => t,
        None => join_nicknames(display_users),
    };
    ListChannelProfile { name, image_url }
}

} // verus!
