//! The server registry: the one place where the cross-connection indexes
//! are held and changed.  Its well-formedness ties the three indexes
//! together: channel membership and the sessions' channel lists mirror one
//! another, the nickname index points at sessions carrying that nickname,
//! and no channel stands empty.

use vstd::prelude::*;

use crate::channels_models::{channel_like, id_vec_contains, unique_ids, IrcChannel, IrcChannelOperationStatus};
use crate::channels_models;
use crate::errors::InternalIrcError;
use crate::types::{ChannelName, Nickname};
use crate::user_state::{unique_strings, user_like, User, UserState};
use crate::ClientId;

verus! {

/// The registry.
#[derive(Debug)]
pub struct ServerState {
    pub users: Vec<UserState>,
    pub nick: Vec<(String, ClientId)>,
    pub channels: Vec<IrcChannel>,
    pub ip_counts: Vec<(String, usize)>,
    pub next_user_id: usize,
}

impl ServerState {
    /// A session with this connection id exists.
    pub open spec fn has_user(self, id: ClientId) -> bool {
        exists|i: int|
            0 <= i < self.users@.len() && (#[trigger] self.users@[i]).user.user_id == id
    }

    /// The position of the session with this id.
    pub open spec fn user_index(self, id: ClientId) -> int {
        choose|i: int|
            0 <= i < self.users@.len() && (#[trigger] self.users@[i]).user.user_id == id
    }

    /// The session record with this id.
    pub open spec fn spec_user(self, id: ClientId) -> User {
        self.users@[self.user_index(id)].user
    }

    /// A channel with this name exists.
    pub open spec fn has_channel(self, name: Seq<char>) -> bool {
        exists|i: int|
            0 <= i < self.channels@.len() && (#[trigger] self.channels@[i]).name@ == name
    }

    /// The position of the channel with this name.
    pub open spec fn channel_index(self, name: Seq<char>) -> int {
        choose|i: int|
            0 <= i < self.channels@.len() && (#[trigger] self.channels@[i]).name@ == name
    }

    /// The channel with this name.
    pub open spec fn spec_channel(self, name: Seq<char>) -> IrcChannel {
        self.channels@[self.channel_index(name)]
    }

    /// The nickname index holds this name.
    pub open spec fn nick_bound(self, n: Seq<char>) -> bool {
        exists|i: int| 0 <= i < self.nick@.len() && (#[trigger] self.nick@[i]).0@ == n
    }

    /// The position of the entry binding this name.
    pub open spec fn nick_entry_index(self, n: Seq<char>) -> int {
        choose|i: int| 0 <= i < self.nick@.len() && (#[trigger] self.nick@[i]).0@ == n
    }

    /// The connection id the nickname index binds this name to.
    pub open spec fn nick_id(self, n: Seq<char>) -> ClientId {
        self.nick@[self.nick_entry_index(n)].1
    }

    /// Connection ids are unique and below the allocation counter.
    pub open spec fn users_ok(self) -> bool {
        &&& forall|i: int, j: int|
            0 <= i < j < self.users@.len() ==> (#[trigger] self.users@[i]).user.user_id != (
            #[trigger] self.users@[j]).user.user_id
        &&& forall|i: int|
            0 <= i < self.users@.len() ==> (#[trigger] self.users@[i]).user.user_id.0
                < self.next_user_id
        &&& forall|i: int|
            0 <= i < self.users@.len() ==> unique_strings(
                (#[trigger] self.users@[i]).user.member_of@,
            )
    }

    /// Channel names are unique, each channel is well formed, and no
    /// channel is empty.
    pub open spec fn channels_ok(self) -> bool {
        &&& forall|i: int, j: int|
            0 <= i < j < self.channels@.len() ==> (#[trigger] self.channels@[i]).name@ != (
            #[trigger] self.channels@[j]).name@
        &&& forall|i: int|
            0 <= i < self.channels@.len() ==> (#[trigger] self.channels@[i]).wf()
        &&& forall|i: int|
            0 <= i < self.channels@.len() ==> (#[trigger] self.channels@[i]).members@.len() > 0
    }

    /// Every member of every channel is a session that lists the channel.
    pub open spec fn members_linked(self) -> bool {
        forall|ci: int, mi: int|
            0 <= ci < self.channels@.len() && 0 <= mi < self.channels@[ci].members@.len() ==> {
                let id = #[trigger] self.channels@[ci].members@[mi];
                self.has_user(id) && self.spec_user(id).lists_channel(self.channels@[ci].name@)
            }
    }

    /// Every channel a session lists exists and counts the session as a
    /// member.
    pub open spec fn lists_linked(self) -> bool {
        forall|ui: int, ni: int|
            0 <= ui < self.users@.len() && 0 <= ni < self.users@[ui].user.member_of@.len() ==> {
                let nm = (#[trigger] self.users@[ui].user.member_of@[ni])@;
                self.has_channel(nm) && self.spec_channel(nm).members@.contains(
                    self.users@[ui].user.user_id,
                )
            }
    }

    /// Some entry binds `n` to `id`.
    pub open spec fn nick_has(self, n: Seq<char>, id: ClientId) -> bool {
        exists|i: int|
            0 <= i < self.nick@.len() && (#[trigger] self.nick@[i]).0@ == n && self.nick@[i].1
                == id
    }

    /// Every registered session's nickname stands in the nickname index.
    pub open spec fn registered_bound(self) -> bool {
        forall|ui: int|
            0 <= ui < self.users@.len() ==> ((#[trigger] self.users@[ui]).user.registered ==> (
            self.users@[ui].user.nick matches Some(s) && self.nick_has(
                s@,
                self.users@[ui].user.user_id,
            )))
    }

    /// Nickname keys are unique and each entry points at the session that
    /// carries that nickname.
    pub open spec fn nicks_ok(self) -> bool {
        &&& forall|i: int, j: int|
            0 <= i < j < self.nick@.len() ==> (#[trigger] self.nick@[i]).0@ != (
            #[trigger] self.nick@[j]).0@
        &&& forall|i: int|
            0 <= i < self.nick@.len() ==> {
                let e = #[trigger] self.nick@[i];
                self.has_user(e.1) && self.spec_user(e.1).registered && (self.spec_user(
                    e.1,
                ).nick matches Some(s) && s@ == e.0@)
            }
    }

    /// The registry invariant.
    pub open spec fn wf(self) -> bool {
        &&& self.users_ok()
        &&& self.channels_ok()
        &&& self.members_linked()
        &&& self.lists_linked()
        &&& self.nicks_ok()
        &&& self.registered_bound()
    }

    /// With unique ids, the index of a session determines the choose.
    pub proof fn lemma_user_index(self, i: int)
        requires
            self.users_ok(),
            0 <= i < self.users@.len(),
        ensures
            self.has_user(self.users@[i].user.user_id),
            self.user_index(self.users@[i].user.user_id) == i,
            self.spec_user(self.users@[i].user.user_id) == self.users@[i].user,
    {
        let id = self.users@[i].user.user_id;
        assert(self.has_user(id));
        let j = self.user_index(id);
        if i < j {
            assert(self.users@[i].user.user_id != self.users@[j].user.user_id);
        } else if j < i {
            assert(self.users@[j].user.user_id != self.users@[i].user.user_id);
        }
    }

    /// With unique names, the index of a channel determines the choose.
    pub proof fn lemma_channel_index(self, i: int)
        requires
            self.channels_ok(),
            0 <= i < self.channels@.len(),
        ensures
            self.has_channel(self.channels@[i].name@),
            self.channel_index(self.channels@[i].name@) == i,
            self.spec_channel(self.channels@[i].name@) == self.channels@[i],
    {
        let nm = self.channels@[i].name@;
        assert(self.has_channel(nm));
        let j = self.channel_index(nm);
        if i < j {
            assert(self.channels@[i].name@ != self.channels@[j].name@);
        } else if j < i {
            assert(self.channels@[j].name@ != self.channels@[i].name@);
        }
    }

    /// An empty registry; the first connection gets id 1.
    pub fn new() -> (r: ServerState)
        ensures
            r.wf(),
            r.users@.len() == 0,
            r.nick@.len() == 0,
            r.channels@.len() == 0,
            r.ip_counts@.len() == 0,
            r.next_user_id == 1,
    {
        ServerState {
            users: Vec::new(),
            nick: Vec::new(),
            channels: Vec::new(),
            ip_counts: Vec::new(),
            next_user_id: 1,
        }
    }

    /// The position of the session with this id, if it is connected.
    fn find_user(&self, id: ClientId) -> (r: Option<usize>)
        requires
            self.users_ok(),
        ensures
            match r {
                Some(i) => i < self.users@.len() && self.users@[i as int].user.user_id == id
                    && self.has_user(id) && self.user_index(id) == i,
                None => !self.has_user(id),
            },
    {
        let k = self.users.len();
        let mut i: usize = 0;
        while i < k
            invariant
                0 <= i <= k,
                k == self.users@.len(),
                self.users_ok(),
                forall|x: int| 0 <= x < i ==> (#[trigger] self.users@[x]).user.user_id != id,
            decreases k - i,
        {
            if self.users[i].user.user_id == id {
                proof {
                    self.lemma_user_index(i as int);
                }
                return Some(i);
            }
            i = i + 1;
        }
        proof {
            if self.has_user(id) {
                let w = self.user_index(id);
                assert(self.users@[w].user.user_id == id);
            }
        }
        None
    }

    /// The position of the channel with this name, if it exists.
    fn find_channel(&self, name: &str) -> (r: Option<usize>)
        requires
            self.channels_ok(),
        ensures
            match r {
                Some(i) => i < self.channels@.len() && self.channels@[i as int].name@ == name@
                    && self.has_channel(name@) && self.channel_index(name@) == i,
                None => !self.has_channel(name@),
            },
    {
        let wanted = name.to_owned();
        let k = self.channels.len();
        let mut i: usize = 0;
        while i < k
            invariant
                0 <= i <= k,
                k == self.channels@.len(),
                self.channels_ok(),
                wanted@ == name@,
                forall|x: int| 0 <= x < i ==> (#[trigger] self.channels@[x]).name@ != name@,
            decreases k - i,
        {
            if self.channels[i].name.0 == wanted {
                proof {
                    self.lemma_channel_index(i as int);
                }
                return Some(i);
            }
            i = i + 1;
        }
        proof {
            if self.has_channel(name@) {
                let w = self.channel_index(name@);
                assert(self.channels@[w].name@ == name@);
            }
        }
        None
    }

    /// The position of the nickname entry with this key, if it is bound.
    fn find_nick_entry(&self, n: &str) -> (r: Option<usize>)
        ensures
            match r {
                Some(i) => i < self.nick@.len() && self.nick@[i as int].0@ == n@
                    && self.nick_bound(n@),
                None => !self.nick_bound(n@),
            },
    {
        let wanted = n.to_owned();
        let k = self.nick.len();
        let mut i: usize = 0;
        while i < k
            invariant
                0 <= i <= k,
                k == self.nick@.len(),
                wanted@ == n@,
                forall|x: int| 0 <= x < i ==> (#[trigger] self.nick@[x]).0@ != n@,
            decreases k - i,
        {
            if self.nick[i].0 == wanted {
                return Some(i);
            }
            i = i + 1;
        }
        proof {
            if self.nick_bound(n@) {
                let w = choose|w: int| 0 <= w < self.nick@.len() && (#[trigger] self.nick@[w]).0@
                    == n@;
                assert(false);
            }
        }
        None
    }

    /// Whether a channel with this name exists.
    pub fn channels_exists(&self, channel_name: &ChannelName) -> (r: bool)
        requires
            self.channels_ok(),
        ensures
            r == self.has_channel(channel_name@),
    {
        match self.find_channel(channel_name.0.as_str()) {
            Some(_) => true,
            None => false,
        }
    }

    /// The connection id bound to this nickname, if any.
    pub fn get_cliend_id_from_nick(&self, nick: &Nickname) -> (r: Option<ClientId>)
        ensures
            match r {
                Some(id) => self.nick_bound(nick@) && (exists|i: int|
                    0 <= i < self.nick@.len() && (#[trigger] self.nick@[i]).0@ == nick@
                        && self.nick@[i].1 == id),
                None => !self.nick_bound(nick@),
            },
    {
        match self.find_nick_entry(nick.0.as_str()) {
            Some(i) => {
                let id = self.nick[i].1;
                Some(id)
            },
            None => None,
        }
    }

    /// A copy of the session with this connection id.
    pub fn get_user_state_from_client_id(&self, client_id: &ClientId) -> (r: Option<UserState>)
        requires
            self.users_ok(),
        ensures
            match r {
                Some(u) => self.has_user(*client_id) && user_like(u.user, self.spec_user(*client_id)),
                None => !self.has_user(*client_id),
            },
    {
        match self.find_user(*client_id) {
            Some(i) => Some(self.users[i].clone_state()),
            None => None,
        }
    }

    /// A copy of the session bound to this nickname.
    pub fn get_user_state_from_nick(&self, nick: &Nickname) -> (r: Option<UserState>)
        requires
            self.users_ok(),
            self.nicks_ok(),
        ensures
            match r {
                Some(u) => self.nick_bound(nick@) && u.user.user_id == self.nick_id(nick@)
                    && self.has_user(u.user.user_id) && user_like(
                    u.user,
                    self.spec_user(u.user.user_id),
                ) && (u.user.nick matches Some(s) && s@ == nick@),
                None => !self.nick_bound(nick@),
            },
    {
        match self.find_nick_entry(nick.0.as_str()) {
            Some(i) => {
                proof {
                    let j = self.nick_entry_index(nick@);
                    assert(self.nick@[j].0@ == nick@);
                    if i as int != j {
                        if (i as int) < j {
                            assert(self.nick@[i as int].0@ != self.nick@[j].0@);
                        } else {
                            assert(self.nick@[j].0@ != self.nick@[i as int].0@);
                        }
                    }
                }
                let id = self.nick[i].1;
                match self.find_user(id) {
                    Some(ui) => Some(self.users[ui].clone_state()),
                    None => {
                        proof {
                            assert(self.has_user(self.nick@[i as int].1));
                            assert(false);
                        }
                        None
                    },
                }
            },
            None => None,
        }
    }

    /// A copy of the channel with this name.
    pub fn get_channel(&self, channel: &ChannelName) -> (r: Option<IrcChannel>)
        requires
            self.channels_ok(),
        ensures
            match r {
                Some(c) => self.has_channel(channel@) && channel_like(c, self.spec_channel(channel@)),
                None => !self.has_channel(channel@),
            },
    {
        match self.find_channel(channel.0.as_str()) {
            Some(i) => Some(self.channels[i].clone_channel()),
            None => None,
        }
    }
}


impl ServerState {
    /// Draws the next connection id; ids grow by one per accepted
    /// connection and are never reused.
    pub fn get_next_user_id(&mut self) -> (r: ClientId)
        requires
            old(self).wf(),
            old(self).next_user_id < usize::MAX,
        ensures
            final(self).wf(),
            r.0 == old(self).next_user_id,
            !old(self).has_user(r),
            final(self).users == old(self).users,
            final(self).nick == old(self).nick,
            final(self).channels == old(self).channels,
            final(self).ip_counts == old(self).ip_counts,
            final(self).next_user_id == old(self).next_user_id + 1,
    {
        let id = ClientId(self.next_user_id);
        self.next_user_id = self.next_user_id + 1;
        proof {
            if old(self).has_user(id) {
                let w = old(self).user_index(id);
                assert(old(self).users@[w].user.user_id == id);
            }
            assert forall|ci: int, mi: int|
                0 <= ci < self.channels@.len() && 0 <= mi
                    < self.channels@[ci].members@.len() implies {
                let m = #[trigger] self.channels@[ci].members@[mi];
                self.has_user(m) && self.spec_user(m).lists_channel(self.channels@[ci].name@)
            } by {
                let m = self.channels@[ci].members@[mi];
                assert(old(self).has_user(m) && old(self).spec_user(m).lists_channel(
                    old(self).channels@[ci].name@,
                ));
            }
            assert forall|ui: int, ni: int|
                0 <= ui < self.users@.len() && 0 <= ni
                    < self.users@[ui].user.member_of@.len() implies {
                let nm = (#[trigger] self.users@[ui].user.member_of@[ni])@;
                self.has_channel(nm) && self.spec_channel(nm).members@.contains(
                    self.users@[ui].user.user_id,
                )
            } by {
                assert(old(self).has_channel((self.users@[ui].user.member_of@[ni])@));
            }
            assert forall|i: int|
                0 <= i < self.nick@.len() implies {
                let e = #[trigger] self.nick@[i];
                self.has_user(e.1) && self.spec_user(e.1).registered && (self.spec_user(
                    e.1,
                ).nick matches Some(s) && s@ == e.0@)
            } by {
                assert(old(self).has_user(self.nick@[i].1));
            }
        }
        id
    }

    /// Accepts a fresh session into the registry, assigning its id.
    pub fn add_connecting_user(&mut self, user_state: UserState) -> (r: Result<
        ClientId,
        InternalIrcError,
    >)
        requires
            old(self).wf(),
            old(self).next_user_id < usize::MAX,
            user_state.user.nick is None,
            !user_state.user.registered,
            user_state.user.member_of@.len() == 0,
        ensures
            final(self).wf(),
            match r {
                Ok(id) => {
                    &&& id.0 == old(self).next_user_id
                    &&& !old(self).has_user(id)
                    &&& final(self).has_user(id)
                    &&& final(self).users@.len() == old(self).users@.len() + 1
                    &&& forall|i: int|
                        0 <= i < old(self).users@.len() ==> final(self).users@[i] == old(
                            self,
                        ).users@[i]
                    &&& final(self).users@.last().user == (User {
                        user_id: id,
                        ..user_state.user
                    })
                    &&& final(self).nick == old(self).nick
                    &&& final(self).channels == old(self).channels
                    &&& final(self).ip_counts == old(self).ip_counts
                    &&& final(self).next_user_id == old(self).next_user_id + 1
                },
                Err(_) => false,
            },
    {
        let id = self.get_next_user_id();
        let ghost mid = *self;
        let mut us = user_state;
        us.user.user_id = id;
        self.users.push(us);
        proof {
            assert(self.users@.drop_last() =~= mid.users@);
            let n = self.users@.len() - 1;
            assert forall|i: int, j: int|
                0 <= i < j < self.users@.len() implies (#[trigger] self.users@[i]).user.user_id
                != (#[trigger] self.users@[j]).user.user_id by {
                if j < n {
                } else {
                    assert(self.users@[i] == mid.users@[i]);
                }
            }
            assert forall|ci: int, mi: int|
                0 <= ci < self.channels@.len() && 0 <= mi
                    < self.channels@[ci].members@.len() implies {
                let m = #[trigger] self.channels@[ci].members@[mi];
                self.has_user(m) && self.spec_user(m).lists_channel(self.channels@[ci].name@)
            } by {
                let m = self.channels@[ci].members@[mi];
                assert(mid.has_user(m) && mid.spec_user(m).lists_channel(
                    mid.channels@[ci].name@,
                ));
                let w = mid.user_index(m);
                assert(mid.users@[w].user.user_id == m);
                assert(self.users@[w] == mid.users@[w]);
                self.lemma_user_index(w);
            }
            assert forall|ui: int, ni: int|
                0 <= ui < self.users@.len() && 0 <= ni
                    < self.users@[ui].user.member_of@.len() implies {
                let nm = (#[trigger] self.users@[ui].user.member_of@[ni])@;
                self.has_channel(nm) && self.spec_channel(nm).members@.contains(
                    self.users@[ui].user.user_id,
                )
            } by {
                assert(ui < n);
                assert(self.users@[ui] == mid.users@[ui]);
                assert(mid.has_channel((self.users@[ui].user.member_of@[ni])@));
            }
            assert forall|i: int|
                0 <= i < self.nick@.len() implies {
                let e = #[trigger] self.nick@[i];
                self.has_user(e.1) && self.spec_user(e.1).registered && (self.spec_user(
                    e.1,
                ).nick matches Some(s) && s@ == e.0@)
            } by {
                let e = self.nick@[i];
                assert(mid.has_user(e.1));
                let w = mid.user_index(e.1);
                assert(mid.users@[w].user.user_id == e.1);
                assert(self.users@[w] == mid.users@[w]);
                self.lemma_user_index(w);
            }
            assert forall|ui: int|
                0 <= ui < self.users@.len() implies ((#[trigger] self.users@[ui]).user.registered
                ==> (self.users@[ui].user.nick matches Some(s) && self.nick_has(
                s@,
                self.users@[ui].user.user_id,
            ))) by {
                if ui < n && self.users@[ui].user.registered {
                    assert(self.users@[ui] == mid.users@[ui]);
                    assert(mid.users@[ui].user.nick matches Some(s) && mid.nick_has(
                        s@,
                        mid.users@[ui].user.user_id,
                    ));
                }
            }
        }
        Ok(id)
    }
}


/// What finishing the registration handshake came to.
#[derive(Debug, Clone, Copy, PartialEq, Eq, Structural)]
pub enum RegistrationOutcome {
    /// Nickname or username still missing.
    NotReady,
    /// The wanted nickname is bound to another connection.
    NickInUse,
    /// The session is registered and its nickname is indexed.
    Registered,
}

impl ServerState {
    /// Replacing one session with one of the same id, membership list,
    /// nickname and registration flag disturbs no index.
    proof fn lemma_update_user_keeps_wf(pre: ServerState, post: ServerState, i: int)
        requires
            pre.wf(),
            0 <= i < pre.users@.len(),
            post.users@.len() == pre.users@.len(),
            forall|j: int|
                0 <= j < pre.users@.len() && j != i ==> post.users@[j] == pre.users@[j],
            post.users@[i].user.user_id == pre.users@[i].user.user_id,
            post.users@[i].user.member_of@ == pre.users@[i].user.member_of@,
            post.users@[i].user.nick == pre.users@[i].user.nick,
            post.users@[i].user.registered == pre.users@[i].user.registered,
            post.nick@ == pre.nick@,
            post.channels@ == pre.channels@,
            post.ip_counts@ == pre.ip_counts@,
            post.next_user_id == pre.next_user_id,
        ensures
            post.wf(),
    {
        assert forall|a: int, b: int|
            0 <= a < b < post.users@.len() implies (#[trigger] post.users@[a]).user.user_id != (
        #[trigger] post.users@[b]).user.user_id by {
            assert(pre.users@[a].user.user_id != pre.users@[b].user.user_id);
            assert(post.users@[a].user.user_id == pre.users@[a].user.user_id);
            assert(post.users@[b].user.user_id == pre.users@[b].user.user_id);
        }
        assert forall|a: int|
            0 <= a < post.users@.len() implies (#[trigger] post.users@[a]).user.user_id.0
            < post.next_user_id && unique_strings(post.users@[a].user.member_of@) by {
            assert(post.users@[a].user.user_id == pre.users@[a].user.user_id);
            assert(post.users@[a].user.member_of@ == pre.users@[a].user.member_of@);
        }
        assert forall|ci: int, mi: int|
            0 <= ci < post.channels@.len() && 0 <= mi
                < post.channels@[ci].members@.len() implies {
            let m = #[trigger] post.channels@[ci].members@[mi];
            post.has_user(m) && post.spec_user(m).lists_channel(post.channels@[ci].name@)
        } by {
            let m = post.channels@[ci].members@[mi];
            assert(pre.channels@[ci] == post.channels@[ci]);
            assert(pre.has_user(m) && pre.spec_user(m).lists_channel(pre.channels@[ci].name@));
            let w = pre.user_index(m);
            assert(pre.users@[w].user.user_id == m);
            assert(post.users@[w].user.user_id == m);
            post.lemma_user_index(w);
            assert(post.users@[w].user.member_of@ == pre.users@[w].user.member_of@);
        }
        assert forall|ui: int, ni: int|
            0 <= ui < post.users@.len() && 0 <= ni
                < post.users@[ui].user.member_of@.len() implies {
            let nm = (#[trigger] post.users@[ui].user.member_of@[ni])@;
            post.has_channel(nm) && post.spec_channel(nm).members@.contains(
                post.users@[ui].user.user_id,
            )
        } by {
            assert(post.users@[ui].user.member_of@ == pre.users@[ui].user.member_of@);
            assert(post.users@[ui].user.user_id == pre.users@[ui].user.user_id);
            let nm = (pre.users@[ui].user.member_of@[ni])@;
            assert(pre.has_channel(nm) && pre.spec_channel(nm).members@.contains(
                pre.users@[ui].user.user_id,
            ));
            let w = pre.channel_index(nm);
            assert(pre.channels@[w].name@ == nm);
            post.lemma_channel_index(w);
        }
        assert forall|k: int|
            0 <= k < post.nick@.len() implies {
            let e = #[trigger] post.nick@[k];
            post.has_user(e.1) && post.spec_user(e.1).registered && (post.spec_user(
                e.1,
            ).nick matches Some(s) && s@ == e.0@)
        } by {
            let e = post.nick@[k];
            assert(pre.nick@[k] == e);
            assert(pre.has_user(e.1));
            let w = pre.user_index(e.1);
            assert(pre.users@[w].user.user_id == e.1);
            assert(post.users@[w].user.user_id == e.1);
            post.lemma_user_index(w);
            assert(post.users@[w].user.nick == pre.users@[w].user.nick);
            assert(post.users@[w].user.registered == pre.users@[w].user.registered);
        }
        assert forall|ui: int|
            0 <= ui < post.users@.len() implies ((#[trigger] post.users@[ui]).user.registered
            ==> (post.users@[ui].user.nick matches Some(s) && post.nick_has(
            s@,
            post.users@[ui].user.user_id,
        ))) by {
            if post.users@[ui].user.registered {
                assert(pre.users@[ui].user.registered);
                assert(pre.users@[ui].user.nick matches Some(s) && pre.nick_has(
                    s@,
                    pre.users@[ui].user.user_id,
                ));
                assert(post.users@[ui].user.nick == pre.users@[ui].user.nick);
                let s2 = pre.users@[ui].user.nick.unwrap();
                let w = choose|w: int|
                    0 <= w < pre.nick@.len() && (#[trigger] pre.nick@[w]).0@ == s2@
                        && pre.nick@[w].1 == pre.users@[ui].user.user_id;
                assert(post.nick@[w] == pre.nick@[w]);
            }
        }
    }

    /// Stores the USER parameters on a session.
    pub fn set_user_identity(
        &mut self,
        client_id: ClientId,
        user: String,
        full_user_name: String,
        mode: u8,
    )
        requires
            old(self).wf(),
            old(self).has_user(client_id),
        ensures
            final(self).wf(),
            ({
                let i = old(self).user_index(client_id);
                &&& final(self).users@ == old(self).users@.update(
                    i,
                    UserState {
                        user: User {
                            user: Some(user),
                            full_user_name: Some(full_user_name),
                            modes: UserState::parsed_basic_user_mode(mode),
                            ..old(self).users@[i].user
                        },
                    },
                )
                &&& final(self).nick == old(self).nick
                &&& final(self).channels == old(self).channels
                &&& final(self).ip_counts == old(self).ip_counts
                &&& final(self).next_user_id == old(self).next_user_id
            }),
    {
        let i = match self.find_user(client_id) {
            Some(i) => i,
            None => {
                proof {
                    assert(false);
                }
                return ;
            },
        };
        let mut u = self.users.remove(i);
        u.with_user(user, full_user_name, mode);
        self.users.insert(i, u);
        proof {
            assert(final(self).users@ =~= old(self).users@.update(
                i as int,
                final(self).users@[i as int],
            ));
            ServerState::lemma_update_user_keeps_wf(*old(self), *self, i as int);
        }
    }

    /// Applies a user MODE command to a session.
    pub fn apply_user_modes(
        &mut self,
        client_id: ClientId,
        nick: &str,
        modes: Vec<(char, Vec<char>)>,
    ) -> (r: Result<Option<crate::user_state::UserModeFailure>, InternalIrcError>)
        requires
            old(self).wf(),
            old(self).has_user(client_id),
        ensures
            final(self).wf(),
            final(self).nick == old(self).nick,
            final(self).channels == old(self).channels,
            final(self).ip_counts == old(self).ip_counts,
            final(self).next_user_id == old(self).next_user_id,
            ({
                let i = old(self).user_index(client_id);
                let gs = crate::user_state::groups_view(modes@);
                let u = old(self).users@[i].user;
                if !crate::user_state::groups_valid(gs) {
                    r == Ok::<Option<crate::user_state::UserModeFailure>, InternalIrcError>(
                        Some(crate::user_state::UserModeFailure::UnknownFlag),
                    ) && final(self).users@ == old(self).users@
                } else if !u.registered {
                    (r matches Err(InternalIrcError::UserStateError(_))) && final(self).users@
                        == old(self).users@
                } else if !(u.nick matches Some(n) && n@ == nick@) {
                    r == Ok::<Option<crate::user_state::UserModeFailure>, InternalIrcError>(
                        Some(crate::user_state::UserModeFailure::UsersDontMatch),
                    ) && final(self).users@ == old(self).users@
                } else {
                    r == Ok::<Option<crate::user_state::UserModeFailure>, InternalIrcError>(None)
                        && final(self).users@ == old(self).users@.update(
                        i,
                        UserState {
                            user: User {
                                modes: crate::user_state::apply_groups(u.modes, gs),
                                ..u
                            },
                        },
                    )
                }
            }),
    {
        let i = match self.find_user(client_id) {
            Some(i) => i,
            None => {
                proof {
                    assert(false);
                }
                return Err(InternalIrcError::ServerStateError("no such session"));
            },
        };
        let mut u = self.users.remove(i);
        let r = u.with_modes(nick, modes);
        self.users.insert(i, u);
        proof {
            assert(final(self).users@ =~= old(self).users@.update(
                i as int,
                final(self).users@[i as int],
            ));
            if final(self).users@[i as int] == old(self).users@[i as int] {
                assert(final(self).users@ =~= old(self).users@);
            }
            ServerState::lemma_update_user_keeps_wf(*old(self), *self, i as int);
        }
        r
    }
}


impl ServerState {
    /// Replacing one session with one of the same id and membership list
    /// keeps the session and channel indexes linked, whatever became of
    /// its other fields.
    proof fn lemma_update_user_links(pre: ServerState, post: ServerState, i: int)
        requires
            pre.wf(),
            0 <= i < pre.users@.len(),
            post.users@.len() == pre.users@.len(),
            forall|j: int|
                0 <= j < pre.users@.len() && j != i ==> post.users@[j] == pre.users@[j],
            post.users@[i].user.user_id == pre.users@[i].user.user_id,
            post.users@[i].user.member_of@ == pre.users@[i].user.member_of@,
            post.channels@ == pre.channels@,
            post.next_user_id == pre.next_user_id,
        ensures
            post.users_ok(),
            post.channels_ok(),
            post.members_linked(),
            post.lists_linked(),
            forall|id: ClientId| post.has_user(id) == pre.has_user(id),
            forall|id: ClientId|
                pre.has_user(id) ==> post.user_index(id) == pre.user_index(id),
    {
        assert forall|a: int, b: int|
            0 <= a < b < post.users@.len() implies (#[trigger] post.users@[a]).user.user_id != (
        #[trigger] post.users@[b]).user.user_id by {
            assert(pre.users@[a].user.user_id != pre.users@[b].user.user_id);
            assert(post.users@[a].user.user_id == pre.users@[a].user.user_id);
            assert(post.users@[b].user.user_id == pre.users@[b].user.user_id);
        }
        assert forall|a: int|
            0 <= a < post.users@.len() implies (#[trigger] post.users@[a]).user.user_id.0
            < post.next_user_id && unique_strings(post.users@[a].user.member_of@) by {
            assert(post.users@[a].user.user_id == pre.users@[a].user.user_id);
            assert(post.users@[a].user.member_of@ == pre.users@[a].user.member_of@);
        }
        assert forall|id: ClientId| post.has_user(id) == pre.has_user(id) by {
            if pre.has_user(id) {
                let w = pre.user_index(id);
                assert(pre.users@[w].user.user_id == id);
                assert(post.users@[w].user.user_id == id);
            }
            if post.has_user(id) {
                let w = post.user_index(id);
                assert(post.users@[w].user.user_id == id);
                assert(pre.users@[w].user.user_id == id);
            }
        }
        assert forall|id: ClientId|
            pre.has_user(id) implies post.user_index(id) == pre.user_index(id) by {
            let w = pre.user_index(id);
            assert(pre.users@[w].user.user_id == id);
            assert(post.users@[w].user.user_id == id);
            post.lemma_user_index(w);
        }
        assert forall|ci: int, mi: int|
            0 <= ci < post.channels@.len() && 0 <= mi
                < post.channels@[ci].members@.len() implies {
            let m = #[trigger] post.channels@[ci].members@[mi];
            post.has_user(m) && post.spec_user(m).lists_channel(post.channels@[ci].name@)
        } by {
            let m = post.channels@[ci].members@[mi];
            assert(pre.channels@[ci] == post.channels@[ci]);
            assert(pre.has_user(m) && pre.spec_user(m).lists_channel(pre.channels@[ci].name@));
            let w = pre.user_index(m);
            assert(pre.users@[w].user.user_id == m);
            assert(post.users@[w].user.user_id == m);
            post.lemma_user_index(w);
            assert(post.users@[w].user.member_of@ == pre.users@[w].user.member_of@);
        }
        assert forall|ui: int, ni: int|
            0 <= ui < post.users@.len() && 0 <= ni
                < post.users@[ui].user.member_of@.len() implies {
            let nm = (#[trigger] post.users@[ui].user.member_of@[ni])@;
            post.has_channel(nm) && post.spec_channel(nm).members@.contains(
                post.users@[ui].user.user_id,
            )
        } by {
            assert(post.users@[ui].user.member_of@ == pre.users@[ui].user.member_of@);
            assert(post.users@[ui].user.user_id == pre.users@[ui].user.user_id);
            let nm = (pre.users@[ui].user.member_of@[ni])@;
            assert(pre.has_channel(nm) && pre.spec_channel(nm).members@.contains(
                pre.users@[ui].user.user_id,
            ));
            let w = pre.channel_index(nm);
            assert(pre.channels@[w].name@ == nm);
            post.lemma_channel_index(w);
        }
    }

    /// Two nickname entries bound to the same connection are one entry.
    proof fn lemma_nick_entry_unique(self, a: int, b: int)
        requires
            self.wf(),
            0 <= a < self.nick@.len(),
            0 <= b < self.nick@.len(),
            self.nick@[a].1 == self.nick@[b].1,
        ensures
            a == b,
    {
        if a != b {
            assert(self.spec_user(self.nick@[a].1).nick matches Some(s) && s@
                == self.nick@[a].0@);
            assert(self.spec_user(self.nick@[b].1).nick matches Some(s) && s@
                == self.nick@[b].0@);
            if a < b {
                assert(self.nick@[a].0@ != self.nick@[b].0@);
            } else {
                assert(self.nick@[b].0@ != self.nick@[a].0@);
            }
        }
    }

    /// The position of the nickname entry bound to this id, if any.
    fn find_entry_by_id(&self, id: ClientId) -> (r: Option<usize>)
        ensures
            match r {
                Some(k) => k < self.nick@.len() && self.nick@[k as int].1 == id,
                None => forall|x: int| 0 <= x < self.nick@.len() ==> (#[trigger] self.nick@[x]).1 != id,
            },
    {
        let k = self.nick.len();
        let mut i: usize = 0;
        while i < k
            invariant
                0 <= i <= k,
                k == self.nick@.len(),
                forall|x: int| 0 <= x < i ==> (#[trigger] self.nick@[x]).1 != id,
            decreases k - i,
        {
            if self.nick[i].1 == id {
                return Some(i);
            }
            i = i + 1;
        }
        None
    }

    /// Gives a session a nickname that no connection holds.  A registered
    /// session's entry in the nickname index moves with it; a session in
    /// its handshake is indexed only on registration.
    pub fn set_nick(&mut self, client_id: ClientId, new_nick: String) -> (r: Option<String>)
        requires
            old(self).wf(),
            old(self).has_user(client_id),
            !old(self).nick_bound(new_nick@),
        ensures
            final(self).wf(),
            r == old(self).spec_user(client_id).nick,
            final(self).channels == old(self).channels,
            final(self).ip_counts == old(self).ip_counts,
            final(self).next_user_id == old(self).next_user_id,
            ({
                let i = old(self).user_index(client_id);
                final(self).users@ == old(self).users@.update(
                    i,
                    UserState {
                        user: User { nick: Some(new_nick), ..old(self).users@[i].user },
                    },
                )
            }),
            old(self).spec_user(client_id).registered ==> forall|n: Seq<char>, x: ClientId|
                final(self).nick_has(n, x) == ((old(self).nick_has(n, x) && x != client_id) || (n
                    == new_nick@ && x == client_id)),
            !old(self).spec_user(client_id).registered ==> final(self).nick@ == old(self).nick@,
    {
        let i = match self.find_user(client_id) {
            Some(i) => i,
            None => {
                proof {
                    assert(false);
                }
                return None;
            },
        };
        let registered = self.users[i].user.registered;
        let mut u = self.users.remove(i);
        let prior = u.with_nick(new_nick.clone());
        self.users.insert(i, u);
        let ghost mid = *self;
        proof {
            assert(mid.users@ =~= old(self).users@.update(i as int, mid.users@[i as int]));
            ServerState::lemma_update_user_links(*old(self), mid, i as int);
        }
        if !registered {
            proof {
                assert forall|k: int|
                    0 <= k < self.nick@.len() implies {
                    let e = #[trigger] self.nick@[k];
                    self.has_user(e.1) && self.spec_user(e.1).registered && (self.spec_user(
                        e.1,
                    ).nick matches Some(s) && s@ == e.0@)
                } by {
                    let e = self.nick@[k];
                    assert(old(self).has_user(e.1));
                    let w = old(self).user_index(e.1);
                    assert(old(self).spec_user(e.1).registered);
                    if w == i {
                        assert(old(self).users@[i as int].user.registered == false);
                        assert(false);
                    }
                    assert(self.users@[w] == old(self).users@[w]);
                    assert(self.user_index(e.1) == w);
                }
                assert forall|ui: int|
                    0 <= ui < self.users@.len() implies ((
                #[trigger] self.users@[ui]).user.registered ==> (self.users@[ui].user.nick
                    matches Some(s) && self.nick_has(s@, self.users@[ui].user.user_id))) by {
                    if self.users@[ui].user.registered {
                        assert(ui != i);
                        assert(self.users@[ui] == old(self).users@[ui]);
                        assert(old(self).users@[ui].user.nick matches Some(s) && old(
                            self,
                        ).nick_has(s@, old(self).users@[ui].user.user_id));
                    }
                }
            }
            return prior;
        }
        // Move the index entry of this session to the new key.
        let entry = self.find_entry_by_id(client_id);
        match entry {
            Some(k) => {
                self.nick.remove(k);
            },
            None => {
                proof {
                    // A registered session always has an entry.
                    assert(old(self).users@[i as int].user.registered);
                    assert(old(self).users@[i as int].user.nick matches Some(s) && old(
                        self,
                    ).nick_has(s@, client_id)) by {
                        old(self).lemma_user_index(i as int);
                    }
                    let s2 = old(self).users@[i as int].user.nick.unwrap();
                    let w = choose|w: int|
                        0 <= w < old(self).nick@.len() && (#[trigger] old(self).nick@[w]).0@
                            == s2@ && old(self).nick@[w].1 == client_id;
                    assert(mid.nick@[w].1 == client_id);
                    assert(false);
                }
            },
        }
        self.nick.push((new_nick, client_id));
        proof {
            let ghost pre = *old(self);
            let k = entry.unwrap() as int;
            assert(mid.nick@ == pre.nick@);
            let removedseq = pre.nick@.subrange(0, k) + pre.nick@.skip(k + 1);
            assert(self.nick@ =~= removedseq.push((self.nick@.last().0, client_id)));
            assert(self.nick@.last().0@ == new_nick@);
            // every other entry survives at a shifted position
            assert forall|x: int|
                0 <= x < self.nick@.len() - 1 implies (self.nick@[x] == if x < k {
                pre.nick@[x]
            } else {
                pre.nick@[x + 1]
            }) by {}
            // keys stay unique
            assert forall|a: int, b: int|
                0 <= a < b < self.nick@.len() implies (#[trigger] self.nick@[a]).0@ != (
            #[trigger] self.nick@[b]).0@ by {
                if b < self.nick@.len() - 1 {
                    let pa = if a < k { a } else { a + 1 };
                    let pb = if b < k { b } else { b + 1 };
                    assert(pre.nick@[pa].0@ != pre.nick@[pb].0@);
                } else {
                    let pa = if a < k { a } else { a + 1 };
                    assert(!pre.nick_bound(new_nick@));
                    assert(pre.nick@[pa].0@ != new_nick@);
                }
            }
            // entries point at sessions carrying the key
            assert forall|x: int|
                0 <= x < self.nick@.len() implies {
                let e = #[trigger] self.nick@[x];
                self.has_user(e.1) && self.spec_user(e.1).registered && (self.spec_user(
                    e.1,
                ).nick matches Some(s) && s@ == e.0@)
            } by {
                if x < self.nick@.len() - 1 {
                    let px = if x < k { x } else { x + 1 };
                    let e = pre.nick@[px];
                    assert(pre.has_user(e.1));
                    let w = pre.user_index(e.1);
                    assert(w != i) by {
                        if w == i {
                            pre.lemma_nick_entry_unique(px, px);
                            let s2 = pre.users@[i as int].user.nick.unwrap();
                            pre.lemma_user_index(i as int);
                            // the entry of this id was the removed one
                            if px < k || px > k {
                                pre.lemma_nick_entry_unique(px, k);
                            }
                        }
                    }
                    assert(self.users@[w] == pre.users@[w]);
                    assert(self.user_index(e.1) == w);
                } else {
                    let e = self.nick@[x];
                    assert(e.1 == client_id);
                    pre.lemma_user_index(i as int);
                    assert(self.user_index(client_id) == i);
                    assert(self.users@[i as int].user.nick matches Some(s) && s@ == e.0@);
                }
            }
            // registered sessions keep an entry
            assert forall|ui: int|
                0 <= ui < self.users@.len() implies ((
            #[trigger] self.users@[ui]).user.registered ==> (self.users@[ui].user.nick matches
                Some(s) && self.nick_has(s@, self.users@[ui].user.user_id))) by {
                if self.users@[ui].user.registered {
                    if ui == i {
                        assert(self.nick@.last() == (self.nick@.last().0, client_id));
                        assert(self.nick@[self.nick@.len() - 1].0@ == new_nick@);
                        assert(self.users@[ui].user.nick matches Some(s) && s@ == new_nick@);
                        assert(self.nick_has(new_nick@, client_id));
                    } else {
                        assert(self.users@[ui] == pre.users@[ui]);
                        let s2 = pre.users@[ui].user.nick.unwrap();
                        let w = choose|w: int|
                            0 <= w < pre.nick@.len() && (#[trigger] pre.nick@[w]).0@ == s2@
                                && pre.nick@[w].1 == pre.users@[ui].user.user_id;
                        assert(w != k) by {
                            if w == k {
                                assert(pre.nick@[k].1 == pre.users@[ui].user.user_id);
                                assert(pre.nick@[k].1 == client_id);
                                pre.lemma_user_index(ui);
                                pre.lemma_user_index(i as int);
                            }
                        }
                        if w < k {
                            assert(self.nick@[w] == pre.nick@[w]);
                        } else {
                            assert(self.nick@[w - 1] == pre.nick@[w]);
                        }
                    }
                }
            }
            // the predicate-level account of the rebinding
            assert forall|n: Seq<char>, x: ClientId|
                self.nick_has(n, x) == ((pre.nick_has(n, x) && x != client_id) || (n == new_nick@
                    && x == client_id)) by {
                if self.nick_has(n, x) {
                    let w = choose|w: int|
                        0 <= w < self.nick@.len() && (#[trigger] self.nick@[w]).0@ == n
                            && self.nick@[w].1 == x;
                    if w < self.nick@.len() - 1 {
                        let pw = if w < k { w } else { w + 1 };
                        assert(pre.nick@[pw].0@ == n && pre.nick@[pw].1 == x);
                        assert(x != client_id) by {
                            if x == client_id {
                                pre.lemma_nick_entry_unique(pw, k);
                            }
                        }
                    }
                }
                if pre.nick_has(n, x) && x != client_id {
                    let w = choose|w: int|
                        0 <= w < pre.nick@.len() && (#[trigger] pre.nick@[w]).0@ == n
                            && pre.nick@[w].1 == x;
                    assert(w != k);
                    if w < k {
                        assert(self.nick@[w] == pre.nick@[w]);
                    } else {
                        assert(self.nick@[w - 1] == pre.nick@[w]);
                    }
                }
                if n == new_nick@ && x == client_id {
                    assert(self.nick@[self.nick@.len() - 1].0@ == n);
                }
            }
            pre.lemma_user_index(i as int);
        }
        prior
    }
}


impl ServerState {
    /// Finishes registration once NICK and USER both arrived: the session
    /// becomes registered and its nickname enters the index, unless another
    /// connection holds that nickname.
    pub fn try_finalize_registration(&mut self, client_id: ClientId) -> (r: RegistrationOutcome)
        requires
            old(self).wf(),
            old(self).has_user(client_id),
        ensures
            final(self).wf(),
            final(self).channels == old(self).channels,
            final(self).ip_counts == old(self).ip_counts,
            final(self).next_user_id == old(self).next_user_id,
            ({
                let i = old(self).user_index(client_id);
                let u = old(self).users@[i].user;
                if u.registered {
                    r == RegistrationOutcome::Registered && final(self).users@ == old(
                        self,
                    ).users@ && final(self).nick@ == old(self).nick@
                } else if u.nick is None || u.user is None {
                    r == RegistrationOutcome::NotReady && final(self).users@ == old(self).users@
                        && final(self).nick@ == old(self).nick@
                } else if old(self).nick_bound(u.nick.unwrap()@) {
                    r == RegistrationOutcome::NickInUse && final(self).users@ == old(
                        self,
                    ).users@ && final(self).nick@ == old(self).nick@
                } else {
                    &&& r == RegistrationOutcome::Registered
                    &&& final(self).users@ == old(self).users@.update(
                        i,
                        UserState { user: User { registered: true, ..u } },
                    )
                    &&& final(self).nick@.len() == old(self).nick@.len() + 1
                    &&& final(self).nick@.drop_last() == old(self).nick@
                    &&& final(self).nick@.last().0@ == u.nick.unwrap()@
                    &&& final(self).nick@.last().1 == client_id
                }
            }),
    {
        let i = match self.find_user(client_id) {
            Some(i) => i,
            None => {
                proof {
                    assert(false);
                }
                return RegistrationOutcome::NotReady;
            },
        };
        if self.users[i].user.registered {
            return RegistrationOutcome::Registered;
        }
        if self.users[i].user.nick.is_none() || self.users[i].user.user.is_none() {
            return RegistrationOutcome::NotReady;
        }
        let wanted = match &self.users[i].user.nick {
            Some(s) => s.clone(),
            None => {
                proof {
                    assert(false);
                }
                return RegistrationOutcome::NotReady;
            },
        };
        match self.find_nick_entry(wanted.as_str()) {
            Some(_) => {
                return RegistrationOutcome::NickInUse;
            },
            None => {},
        }
        let mut u = self.users.remove(i);
        u.user.registered = true;
        self.users.insert(i, u);
        let ghost mid = *self;
        proof {
            assert(mid.users@ =~= old(self).users@.update(i as int, mid.users@[i as int]));
            ServerState::lemma_update_user_links(*old(self), mid, i as int);
        }
        self.nick.push((wanted, client_id));
        proof {
            let pre = *old(self);
            assert(self.nick@.drop_last() =~= pre.nick@);
            assert forall|a: int, b: int|
                0 <= a < b < self.nick@.len() implies (#[trigger] self.nick@[a]).0@ != (
            #[trigger] self.nick@[b]).0@ by {
                if b < self.nick@.len() - 1 {
                    assert(self.nick@[a] == pre.nick@[a] && self.nick@[b] == pre.nick@[b]);
                } else {
                    assert(self.nick@[a] == pre.nick@[a]);
                    assert(!pre.nick_bound(self.nick@[b].0@));
                }
            }
            assert forall|x: int|
                0 <= x < self.nick@.len() implies {
                let e = #[trigger] self.nick@[x];
                self.has_user(e.1) && self.spec_user(e.1).registered && (self.spec_user(
                    e.1,
                ).nick matches Some(s) && s@ == e.0@)
            } by {
                if x < self.nick@.len() - 1 {
                    let e = pre.nick@[x];
                    assert(pre.has_user(e.1) && pre.spec_user(e.1).registered);
                    let w = pre.user_index(e.1);
                    assert(w != i) by {
                        if w == i {
                            assert(pre.users@[i as int].user.registered == false);
                        }
                    }
                    assert(self.users@[w] == pre.users@[w]);
                    assert(self.user_index(e.1) == w);
                } else {
                    pre.lemma_user_index(i as int);
                    assert(self.user_index(client_id) == i);
                    assert(self.users@[i as int].user.registered);
                    assert(self.users@[i as int].user.nick matches Some(s) && s@
                        == self.nick@[x].0@);
                }
            }
            assert forall|ui: int|
                0 <= ui < self.users@.len() implies ((
            #[trigger] self.users@[ui]).user.registered ==> (self.users@[ui].user.nick matches
                Some(s) && self.nick_has(s@, self.users@[ui].user.user_id))) by {
                if self.users@[ui].user.registered {
                    if ui == i {
                        assert(self.nick@[self.nick@.len() - 1].1 == client_id);
                        pre.lemma_user_index(i as int);
                        assert(self.nick_has(
                            self.users@[ui].user.nick.unwrap()@,
                            self.users@[ui].user.user_id,
                        ));
                    } else {
                        assert(self.users@[ui] == pre.users@[ui]);
                        let s2 = pre.users@[ui].user.nick.unwrap();
                        let w = choose|w: int|
                            0 <= w < pre.nick@.len() && (#[trigger] pre.nick@[w]).0@ == s2@
                                && pre.nick@[w].1 == pre.users@[ui].user.user_id;
                        assert(self.nick@[w] == pre.nick@[w]);
                    }
                }
            }
            pre.lemma_user_index(i as int);
        }
        RegistrationOutcome::Registered
    }
}


/// A key passes when the channel demands none, or the given key reads the
/// same.
pub open spec fn key_matches(chan_key: Option<String>, given: Option<String>) -> bool {
    match chan_key {
        None => true,
        Some(k2) => given matches Some(pk) && pk@ == k2@,
    }
}

/// What a join attempt comes to, judged against the admission checks in
/// their order: user limit, ban list against its exceptions, invite-only
/// against invitations and exceptions, the key, then prior membership.
/// A channel that does not exist yet admits its creator.
pub open spec fn join_decision(
    s: ServerState,
    name: Seq<char>,
    id: ClientId,
    key: Option<String>,
    is_invited: bool,
) -> IrcChannelOperationStatus {
    if !s.has_channel(name) {
        IrcChannelOperationStatus::NewJoin
    } else {
        let c = s.spec_channel(name);
        if c.modes.user_limit matches Some(l) && c.members@.len() >= l {
            IrcChannelOperationStatus::ChannelIsFull
        } else if c.modes.ban_list@.contains(id) && !c.modes.except_list@.contains(id) {
            IrcChannelOperationStatus::BannedFromChan
        } else if c.modes.invite_only && !is_invited && !c.modes.invite_exceptions@.contains(id) {
            IrcChannelOperationStatus::InviteOnlyChan
        } else if !key_matches(c.modes.key, key) {
            IrcChannelOperationStatus::BadChannelKey
        } else if c.members@.contains(id) {
            IrcChannelOperationStatus::AlreadyMember
        } else {
            IrcChannelOperationStatus::NewJoin
        }
    }
}

impl ServerState {
    /// Joins a session to a channel, creating the channel on first join
    /// and granting its creator operator privilege.  On a denial the
    /// registry stands unchanged and the status names the reason.
    #[verifier::rlimit(80)]
    pub fn handle_join(
        &mut self,
        channel_name: ChannelName,
        client_id: ClientId,
        key: Option<String>,
        is_invited: bool,
    ) -> (r: Result<(IrcChannelOperationStatus, Option<IrcChannel>), InternalIrcError>)
        requires
            old(self).wf(),
            old(self).has_user(client_id),
        ensures
            final(self).wf(),
            final(self).nick == old(self).nick,
            final(self).ip_counts == old(self).ip_counts,
            final(self).next_user_id == old(self).next_user_id,
            match r {
                Ok(p) => {
                    &&& p.0 == join_decision(
                        *old(self),
                        channel_name@,
                        client_id,
                        key,
                        is_invited,
                    )
                    &&& p.0 != IrcChannelOperationStatus::NewJoin ==> final(self).users@ == old(
                        self,
                    ).users@ && final(self).channels@ == old(self).channels@ && p.1 is None
                    &&& p.0 == IrcChannelOperationStatus::NewJoin ==> {
                        let ui = old(self).user_index(client_id);
                        let u2 = final(self).users@[ui].user;
                        let c2 = final(self).spec_channel(channel_name@);
                        &&& final(self).has_channel(channel_name@)
                        &&& final(self).users@.len() == old(self).users@.len()
                        &&& forall|x: int|
                            0 <= x < old(self).users@.len() && x != ui ==> final(self).users@[x]
                                == old(self).users@[x]
                        &&& u2.identity() == old(self).users@[ui].user.identity()
                        &&& u2.member_of@ == old(self).users@[ui].user.member_of@.push(
                            channel_name.0,
                        )
                        &&& (p.1 matches Some(cc) && channel_like(cc, c2))
                        &&& if old(self).has_channel(channel_name@) {
                            let ci = old(self).channel_index(channel_name@);
                            let c1 = old(self).channels@[ci];
                            &&& final(self).channels@.len() == old(self).channels@.len()
                            &&& forall|x: int|
                                0 <= x < old(self).channels@.len() && x != ci
                                    ==> final(self).channels@[x] == old(self).channels@[x]
                            &&& final(self).channel_index(channel_name@) == ci
                            &&& c2.members@ == c1.members@.push(client_id)
                            &&& c2.operators@ == c1.operators@
                            &&& c2.voiced@ == c1.voiced@
                            &&& c2.topic == c1.topic
                            &&& c2.modes == c1.modes
                            &&& c2.name == c1.name
                        } else {
                            &&& final(self).channels@.len() == old(self).channels@.len() + 1
                            &&& forall|x: int|
                                0 <= x < old(self).channels@.len() ==> final(self).channels@[x]
                                    == old(self).channels@[x]
                            &&& c2.members@ == seq![client_id]
                            &&& c2.operators@ == seq![client_id]
                            &&& c2.voiced@.len() == 0
                            &&& c2.modes.is_fresh()
                            &&& c2.topic is None
                            &&& c2.name@ == channel_name@
                        }
                    }
                },
                Err(_) => false,
            },
    {
        let ui = match self.find_user(client_id) {
            Some(i) => i,
            None => {
                proof {
                    assert(false);
                }
                return Err(InternalIrcError::ServerStateError("no such session"));
            },
        };
        let ci_opt = self.find_channel(channel_name.0.as_str());
        match ci_opt {
            Some(ci) => {
                proof {
                    self.lemma_channel_index(ci as int);
                }
                let full = match self.channels[ci].modes.user_limit {
                    Some(l) => self.channels[ci].members.len() >= l,
                    None => false,
                };
                if full {
                    return Ok((IrcChannelOperationStatus::ChannelIsFull, None));
                }
                let banned = id_vec_contains(&self.channels[ci].modes.ban_list, client_id)
                    && !id_vec_contains(&self.channels[ci].modes.except_list, client_id);
                if banned {
                    return Ok((IrcChannelOperationStatus::BannedFromChan, None));
                }
                let invite_barred = self.channels[ci].modes.invite_only && !is_invited
                    && !id_vec_contains(&self.channels[ci].modes.invite_exceptions, client_id);
                if invite_barred {
                    return Ok((IrcChannelOperationStatus::InviteOnlyChan, None));
                }
                let key_ok = match &self.channels[ci].modes.key {
                    None => true,
                    Some(k2) => match &key {
                        Some(pk) => *pk == *k2,
                        None => false,
                    },
                };
                if !key_ok {
                    return Ok((IrcChannelOperationStatus::BadChannelKey, None));
                }
                if id_vec_contains(&self.channels[ci].members, client_id) {
                    return Ok((IrcChannelOperationStatus::AlreadyMember, None));
                }
                // Admission granted: record membership on both sides.
                let mut c = self.channels.remove(ci);
                let _ = c.add_member(client_id);
                self.channels.insert(ci, c);
                proof {
                    assert(self.channels@ =~= old(self).channels@.update(
                        ci as int,
                        self.channels@[ci as int],
                    ));
                }
                let mut u = self.users.remove(ui);
                u.join_channel(&channel_name);
                self.users.insert(ui, u);
                proof {
                    assert(self.users@ =~= old(self).users@.update(
                        ui as int,
                        self.users@[ui as int],
                    ));
                    assert(!old(self).users@[ui as int].user.lists_channel(channel_name@)) by {
                        if old(self).users@[ui as int].user.lists_channel(channel_name@) {
                            let ni = choose|ni: int|
                                0 <= ni < old(self).users@[ui as int].user.member_of@.len() && (
                                #[trigger] old(self).users@[ui as int].user.member_of@[ni])@
                                    == channel_name@;
                            assert(old(self).spec_channel(channel_name@).members@.contains(
                                client_id,
                            ));
                        }
                    }
                    self.lemma_join_existing_wf(*old(self), ui as int, ci as int, channel_name@, client_id);
                }
                let cl = self.channels[ci].clone_channel();
                proof {
                    self.lemma_channel_index(ci as int);
                }
                Ok((IrcChannelOperationStatus::NewJoin, Some(cl)))
            },
            None => {
                // First join creates the channel; the creator is operator.
                let mut c = IrcChannel::new(ChannelName(channel_name.0.clone()));
                let _ = c.add_member(client_id);
                let _ = c.add_operator(client_id);
                self.channels.push(c);
                let mut u = self.users.remove(ui);
                u.join_channel(&channel_name);
                self.users.insert(ui, u);
                proof {
                    assert(self.users@ =~= old(self).users@.update(
                        ui as int,
                        self.users@[ui as int],
                    ));
                    assert(self.channels@.drop_last() =~= old(self).channels@);
                    assert(self.channels@.last().members@ =~= seq![client_id]);
                    assert(self.channels@.last().operators@ =~= seq![client_id]);
                    assert(!old(self).users@[ui as int].user.lists_channel(channel_name@)) by {
                        if old(self).users@[ui as int].user.lists_channel(channel_name@) {
                            let ni = choose|ni: int|
                                0 <= ni < old(self).users@[ui as int].user.member_of@.len() && (
                                #[trigger] old(self).users@[ui as int].user.member_of@[ni])@
                                    == channel_name@;
                            assert(old(self).has_channel(channel_name@));
                        }
                    }
                    self.lemma_join_fresh_wf(*old(self), ui as int, channel_name@, client_id);
                }
                let ci = self.channels.len() - 1;
                let cl = self.channels[ci].clone_channel();
                proof {
                    self.lemma_channel_index(ci as int);
                }
                Ok((IrcChannelOperationStatus::NewJoin, Some(cl)))
            },
        }
    }

    /// Adding one member to an existing channel, mirrored in that
    /// session's channel list, preserves the registry invariant.
    #[verifier::spinoff_prover]
    proof fn lemma_join_existing_wf(
        self,
        pre: ServerState,
        ui: int,
        ci: int,
        name: Seq<char>,
        id: ClientId,
    )
        requires
            pre.wf(),
            0 <= ui < pre.users@.len(),
            0 <= ci < pre.channels@.len(),
            pre.users@[ui].user.user_id == id,
            pre.channels@[ci].name@ == name,
            !pre.channels@[ci].members@.contains(id),
            !pre.users@[ui].user.lists_channel(name),
            self.users@ == pre.users@.update(
                ui,
                UserState {
                    user: User {
                        member_of: self.users@[ui].user.member_of,
                        ..pre.users@[ui].user
                    },
                },
            ),
            self.users@[ui].user.member_of@ == pre.users@[ui].user.member_of@.push(
                self.users@[ui].user.member_of@.last(),
            ),
            (self.users@[ui].user.member_of@.last())@ == name,
            self.channels@ == pre.channels@.update(
                ci,
                IrcChannel {
                    members: self.channels@[ci].members,
                    ..pre.channels@[ci]
                },
            ),
            self.channels@[ci].members@ == pre.channels@[ci].members@.push(id),
            self.nick@ == pre.nick@,
            self.next_user_id == pre.next_user_id,
        ensures
            self.wf(),
    {
        let post = self;
        assert forall|a: int, b: int|
            0 <= a < b < post.users@.len() implies (#[trigger] post.users@[a]).user.user_id != (
        #[trigger] post.users@[b]).user.user_id by {
            assert(pre.users@[a].user.user_id != pre.users@[b].user.user_id);
        }
        assert forall|a: int|
            0 <= a < post.users@.len() implies (#[trigger] post.users@[a]).user.user_id.0
            < post.next_user_id && unique_strings(post.users@[a].user.member_of@) by {
            if a == ui {
                let m2 = post.users@[ui].user.member_of@;
                let m1 = pre.users@[ui].user.member_of@;
                assert forall|x: int, y: int|
                    0 <= x < y < m2.len() implies (#[trigger] m2[x])@ != (#[trigger] m2[y])@ by {
                    if y < m2.len() - 1 {
                        assert(m2[x] == m1[x] && m2[y] == m1[y]);
                    } else {
                        assert(m2[x] == m1[x]);
                        if (m1[x])@ == name {
                            assert(pre.users@[ui].user.lists_channel(name));
                        }
                    }
                }
            }
        }
        assert forall|id2: ClientId| pre.has_user(id2) implies post.has_user(id2)
            && post.user_index(id2) == pre.user_index(id2) by {
            let w = pre.user_index(id2);
            assert(pre.users@[w].user.user_id == id2);
            assert(post.users@[w].user.user_id == id2);
            post.lemma_user_index(w);
        }
        assert forall|a: int, b: int|
            0 <= a < b < post.channels@.len() implies (#[trigger] post.channels@[a]).name@ != (
        #[trigger] post.channels@[b]).name@ by {
            assert(pre.channels@[a].name@ != pre.channels@[b].name@);
        }
        assert forall|a: int|
            0 <= a < post.channels@.len() implies (#[trigger] post.channels@[a]).wf() && (
        post.channels@[a].members@.len() > 0) by {
            if a == ci {
                let ms = post.channels@[ci].members@;
                assert forall|x: int, y: int| 0 <= x < y < ms.len() implies ms[x] != ms[y] by {
                    if y < ms.len() - 1 {
                        assert(ms[x] == pre.channels@[ci].members@[x]);
                        assert(ms[y] == pre.channels@[ci].members@[y]);
                    } else {
                        assert(ms[x] == pre.channels@[ci].members@[x]);
                        assert(pre.channels@[ci].members@.contains(ms[x]));
                    }
                }
                assert forall|x: int|
                    0 <= x < post.channels@[ci].operators@.len() implies ms.contains(
                    #[trigger] post.channels@[ci].operators@[x],
                ) by {
                    assert(pre.channels@[ci].members@.contains(pre.channels@[ci].operators@[x]));
                    let w = choose|w: int|
                        0 <= w < pre.channels@[ci].members@.len() && pre.channels@[ci].members@[w]
                            == pre.channels@[ci].operators@[x];
                    assert(ms[w] == pre.channels@[ci].operators@[x]);
                }
                assert forall|x: int|
                    0 <= x < post.channels@[ci].voiced@.len() implies ms.contains(
                    #[trigger] post.channels@[ci].voiced@[x],
                ) by {
                    assert(pre.channels@[ci].members@.contains(pre.channels@[ci].voiced@[x]));
                    let w = choose|w: int|
                        0 <= w < pre.channels@[ci].members@.len() && pre.channels@[ci].members@[w]
                            == pre.channels@[ci].voiced@[x];
                    assert(ms[w] == pre.channels@[ci].voiced@[x]);
                }
            }
        }
        assert forall|nm: Seq<char>| pre.has_channel(nm) implies post.has_channel(nm)
            && post.channel_index(nm) == pre.channel_index(nm) by {
            let w = pre.channel_index(nm);
            assert(pre.channels@[w].name@ == nm);
            assert(post.channels@[w].name@ == nm);
            post.lemma_channel_index(w);
        }
        assert forall|c2: int, mi: int|
            0 <= c2 < post.channels@.len() && 0 <= mi
                < post.channels@[c2].members@.len() implies {
            let m = #[trigger] post.channels@[c2].members@[mi];
            post.has_user(m) && post.spec_user(m).lists_channel(post.channels@[c2].name@)
        } by {
            let m = post.channels@[c2].members@[mi];
            if c2 == ci && mi == post.channels@[ci].members@.len() - 1 {
                assert(m == id);
                pre.lemma_user_index(ui);
                assert(post.has_user(id) && post.user_index(id) == ui);
                assert((post.users@[ui].user.member_of@.last())@ == name);
                assert(post.users@[ui].user.lists_channel(name));
            } else {
                let pm = if c2 == ci {
                    pre.channels@[ci].members@[mi]
                } else {
                    pre.channels@[c2].members@[mi]
                };
                assert(m == pm);
                assert(pre.has_user(m) && pre.spec_user(m).lists_channel(pre.channels@[c2].name@));
                let w = pre.user_index(m);
                assert(post.user_index(m) == w);
                if w == ui {
                    let nm = pre.channels@[c2].name@;
                    let ni = choose|ni: int|
                        0 <= ni < pre.users@[ui].user.member_of@.len() && (
                        #[trigger] pre.users@[ui].user.member_of@[ni])@ == nm;
                    assert(post.users@[ui].user.member_of@[ni] == pre.users@[ui].user.member_of@[ni]);
                    assert(post.users@[w].user.lists_channel(nm));
                }
                assert(post.channels@[c2].name@ == pre.channels@[c2].name@);
            }
        }
        assert forall|u2: int, ni: int|
            0 <= u2 < post.users@.len() && 0 <= ni
                < post.users@[u2].user.member_of@.len() implies {
            let nm = (#[trigger] post.users@[u2].user.member_of@[ni])@;
            post.has_channel(nm) && post.spec_channel(nm).members@.contains(
                post.users@[u2].user.user_id,
            )
        } by {
            let nm = (post.users@[u2].user.member_of@[ni])@;
            if u2 == ui && ni == post.users@[ui].user.member_of@.len() - 1 {
                assert(nm == name);
                pre.lemma_channel_index(ci);
                assert(post.channel_index(name) == ci);
                assert(post.channels@[ci].members@.last() == id);
                assert(post.channels@[ci].members@.contains(id));
            } else {
                assert(post.users@[u2].user.member_of@[ni] == pre.users@[u2].user.member_of@[ni]);
                assert(pre.has_channel(nm) && pre.spec_channel(nm).members@.contains(
                    pre.users@[u2].user.user_id,
                ));
                let w = pre.channel_index(nm);
                assert(post.channel_index(nm) == w);
                if w == ci {
                    let mi = choose|mi: int|
                        0 <= mi < pre.channels@[ci].members@.len() && pre.channels@[ci].members@[mi]
                            == pre.users@[u2].user.user_id;
                    assert(post.channels@[ci].members@[mi] == pre.users@[u2].user.user_id);
                    assert(post.channels@[w].members@.contains(post.users@[u2].user.user_id));
                }
            }
        }
        assert forall|k: int|
            0 <= k < post.nick@.len() implies {
            let e = #[trigger] post.nick@[k];
            post.has_user(e.1) && post.spec_user(e.1).registered && (post.spec_user(
                e.1,
            ).nick matches Some(s) && s@ == e.0@)
        } by {
            let e = post.nick@[k];
            assert(pre.has_user(e.1));
            let w = pre.user_index(e.1);
            assert(post.user_index(e.1) == w);
            assert(post.users@[w].user.nick == pre.users@[w].user.nick);
            assert(post.users@[w].user.registered == pre.users@[w].user.registered);
        }
        assert forall|u2: int|
            0 <= u2 < post.users@.len() implies ((#[trigger] post.users@[u2]).user.registered
            ==> (post.users@[u2].user.nick matches Some(s) && post.nick_has(
            s@,
            post.users@[u2].user.user_id,
        ))) by {
            if post.users@[u2].user.registered {
                assert(pre.users@[u2].user.registered);
                assert(pre.users@[u2].user.nick matches Some(s) && pre.nick_has(
                    s@,
                    pre.users@[u2].user.user_id,
                ));
                assert(post.users@[u2].user.nick == pre.users@[u2].user.nick);
                assert(post.users@[u2].user.user_id == pre.users@[u2].user.user_id);
            }
        }
    }

    /// Creating a channel with its first member, mirrored in that session's
    /// channel list, preserves the registry invariant.
    #[verifier::spinoff_prover]
    proof fn lemma_join_fresh_wf(self, pre: ServerState, ui: int, name: Seq<char>, id: ClientId)
        requires
            pre.wf(),
            0 <= ui < pre.users@.len(),
            pre.users@[ui].user.user_id == id,
            !pre.has_channel(name),
            !pre.users@[ui].user.lists_channel(name),
            self.users@ == pre.users@.update(
                ui,
                UserState {
                    user: User {
                        member_of: self.users@[ui].user.member_of,
                        ..pre.users@[ui].user
                    },
                },
            ),
            self.users@[ui].user.member_of@ == pre.users@[ui].user.member_of@.push(
                self.users@[ui].user.member_of@.last(),
            ),
            (self.users@[ui].user.member_of@.last())@ == name,
            self.channels@ == pre.channels@.push(self.channels@.last()),
            self.channels@.last().name@ == name,
            self.channels@.last().members@ == seq![id],
            self.channels@.last().operators@ == seq![id],
            self.channels@.last().voiced@.len() == 0,
            self.channels@.last().wf(),
            self.nick@ == pre.nick@,
            self.next_user_id == pre.next_user_id,
        ensures
            self.wf(),
    {
        let post = self;
        let nc = post.channels@.len() - 1;
        assert forall|a: int, b: int|
            0 <= a < b < post.users@.len() implies (#[trigger] post.users@[a]).user.user_id != (
        #[trigger] post.users@[b]).user.user_id by {
            assert(pre.users@[a].user.user_id != pre.users@[b].user.user_id);
        }
        assert forall|a: int|
            0 <= a < post.users@.len() implies (#[trigger] post.users@[a]).user.user_id.0
            < post.next_user_id && unique_strings(post.users@[a].user.member_of@) by {
            if a == ui {
                let m2 = post.users@[ui].user.member_of@;
                let m1 = pre.users@[ui].user.member_of@;
                assert forall|x: int, y: int|
                    0 <= x < y < m2.len() implies (#[trigger] m2[x])@ != (#[trigger] m2[y])@ by {
                    if y < m2.len() - 1 {
                        assert(m2[x] == m1[x] && m2[y] == m1[y]);
                    } else {
                        assert(m2[x] == m1[x]);
                        if (m1[x])@ == name {
                            assert(pre.users@[ui].user.lists_channel(name));
                        }
                    }
                }
            }
        }
        assert forall|id2: ClientId| pre.has_user(id2) implies post.has_user(id2)
            && post.user_index(id2) == pre.user_index(id2) by {
            let w = pre.user_index(id2);
            assert(pre.users@[w].user.user_id == id2);
            assert(post.users@[w].user.user_id == id2);
            post.lemma_user_index(w);
        }
        assert forall|a: int, b: int|
            0 <= a < b < post.channels@.len() implies (#[trigger] post.channels@[a]).name@ != (
        #[trigger] post.channels@[b]).name@ by {
            if b < nc {
                assert(pre.channels@[a].name@ != pre.channels@[b].name@);
            } else {
                assert(post.channels@[a] == pre.channels@[a]);
                if pre.channels@[a].name@ == name {
                    assert(pre.has_channel(name));
                }
            }
        }
        assert forall|a: int|
            0 <= a < post.channels@.len() implies (#[trigger] post.channels@[a]).wf() && (
        post.channels@[a].members@.len() > 0) by {
            if a < nc {
                assert(post.channels@[a] == pre.channels@[a]);
            }
        }
        assert forall|nm: Seq<char>| pre.has_channel(nm) implies post.has_channel(nm)
            && post.channel_index(nm) == pre.channel_index(nm) by {
            let w = pre.channel_index(nm);
            assert(pre.channels@[w].name@ == nm);
            assert(post.channels@[w].name@ == nm);
            post.lemma_channel_index(w);
        }
        assert forall|c2: int, mi: int|
            0 <= c2 < post.channels@.len() && 0 <= mi
                < post.channels@[c2].members@.len() implies {
            let m = #[trigger] post.channels@[c2].members@[mi];
            post.has_user(m) && post.spec_user(m).lists_channel(post.channels@[c2].name@)
        } by {
            let m = post.channels@[c2].members@[mi];
            if c2 == nc {
                assert(m == id);
                pre.lemma_user_index(ui);
                assert(post.has_user(id) && post.user_index(id) == ui);
                assert((post.users@[ui].user.member_of@.last())@ == name);
                assert(post.users@[ui].user.lists_channel(name));
            } else {
                assert(post.channels@[c2] == pre.channels@[c2]);
                assert(pre.has_user(m) && pre.spec_user(m).lists_channel(pre.channels@[c2].name@));
                let w = pre.user_index(m);
                assert(post.user_index(m) == w);
                if w == ui {
                    let nm = pre.channels@[c2].name@;
                    let ni = choose|ni: int|
                        0 <= ni < pre.users@[ui].user.member_of@.len() && (
                        #[trigger] pre.users@[ui].user.member_of@[ni])@ == nm;
                    assert(post.users@[ui].user.member_of@[ni]
                        == pre.users@[ui].user.member_of@[ni]);
                    assert(post.users@[w].user.lists_channel(nm));
                }
            }
        }
        assert forall|u2: int, ni: int|
            0 <= u2 < post.users@.len() && 0 <= ni
                < post.users@[u2].user.member_of@.len() implies {
            let nm = (#[trigger] post.users@[u2].user.member_of@[ni])@;
            post.has_channel(nm) && post.spec_channel(nm).members@.contains(
                post.users@[u2].user.user_id,
            )
        } by {
            let nm = (post.users@[u2].user.member_of@[ni])@;
            if u2 == ui && ni == post.users@[ui].user.member_of@.len() - 1 {
                assert(nm == name);
                post.lemma_channel_index(nc);
                assert(post.channels@[nc].members@[0] == id);
                assert(post.channels@[nc].members@.contains(id));
            } else {
                assert(post.users@[u2].user.member_of@[ni] == pre.users@[u2].user.member_of@[ni]);
                assert(pre.has_channel(nm) && pre.spec_channel(nm).members@.contains(
                    pre.users@[u2].user.user_id,
                ));
                let w = pre.channel_index(nm);
                assert(post.channel_index(nm) == w);
                assert(post.channels@[w] == pre.channels@[w]);
            }
        }
        assert forall|k: int|
            0 <= k < post.nick@.len() implies {
            let e = #[trigger] post.nick@[k];
            post.has_user(e.1) && post.spec_user(e.1).registered && (post.spec_user(
                e.1,
            ).nick matches Some(s) && s@ == e.0@)
        } by {
            let e = post.nick@[k];
            assert(pre.has_user(e.1));
            let w = pre.user_index(e.1);
            assert(post.user_index(e.1) == w);
            assert(post.users@[w].user.nick == pre.users@[w].user.nick);
            assert(post.users@[w].user.registered == pre.users@[w].user.registered);
        }
        assert forall|u2: int|
            0 <= u2 < post.users@.len() implies ((#[trigger] post.users@[u2]).user.registered
            ==> (post.users@[u2].user.nick matches Some(s) && post.nick_has(
            s@,
            post.users@[u2].user.user_id,
        ))) by {
            if post.users@[u2].user.registered {
                assert(pre.users@[u2].user.registered);
                assert(pre.users@[u2].user.nick matches Some(s) && pre.nick_has(
                    s@,
                    pre.users@[u2].user.user_id,
                ));
                assert(post.users@[u2].user.nick == pre.users@[u2].user.nick);
                assert(post.users@[u2].user.user_id == pre.users@[u2].user.user_id);
            }
        }
    }
}


impl ServerState {
    /// Takes a session out of one channel, on both sides of the membership
    /// link, and destroys the channel when its last member leaves.
    #[verifier::rlimit(80)]
    #[verifier::spinoff_prover]
    pub fn quit_channel(&mut self, client_id: &ClientId, channel_name: &ChannelName)
        requires
            old(self).wf(),
        ensures
            final(self).wf(),
            final(self).nick == old(self).nick,
            final(self).ip_counts == old(self).ip_counts,
            final(self).next_user_id == old(self).next_user_id,
            ({
                let nm = channel_name@;
                let id = *client_id;
                let was = old(self).has_channel(nm) && old(self).spec_channel(
                    nm,
                ).members@.contains(id);
                &&& !was ==> final(self).users@ == old(self).users@ && final(self).channels@
                    == old(self).channels@
                &&& was ==> {
                    let ui = old(self).user_index(id);
                    let u2 = final(self).users@[ui].user;
                    &&& final(self).users@.len() == old(self).users@.len()
                    &&& forall|x: int|
                        0 <= x < old(self).users@.len() && x != ui ==> final(self).users@[x]
                            == old(self).users@[x]
                    &&& u2.identity() == old(self).users@[ui].user.identity()
                    &&& forall|n: Seq<char>|
                        u2.lists_channel(n) == (old(self).users@[ui].user.lists_channel(n) && n
                            != nm)
                    &&& u2.member_of@.len() == old(self).users@[ui].user.member_of@.len() - 1
                    &&& if old(self).spec_channel(nm).members@.len() > 1 {
                        let ci = old(self).channel_index(nm);
                        let c1 = old(self).channels@[ci];
                        let c2 = final(self).channels@[ci];
                        &&& final(self).channels@.len() == old(self).channels@.len()
                        &&& forall|x: int|
                            0 <= x < old(self).channels@.len() && x != ci
                                ==> final(self).channels@[x] == old(self).channels@[x]
                        &&& final(self).has_channel(nm) && final(self).channel_index(nm) == ci
                        &&& forall|x: ClientId|
                            c2.members@.contains(x) == (c1.members@.contains(x) && x != id)
                        &&& forall|x: ClientId|
                            c2.operators@.contains(x) == (c1.operators@.contains(x) && x != id)
                        &&& forall|x: ClientId|
                            c2.voiced@.contains(x) == (c1.voiced@.contains(x) && x != id)
                        &&& c2.members@.len() == c1.members@.len() - 1
                        &&& c2.topic == c1.topic
                        &&& c2.modes == c1.modes
                        &&& c2.name == c1.name
                    } else {
                        let ci = old(self).channel_index(nm);
                        &&& final(self).channels@ == old(self).channels@.remove(ci)
                        &&& !final(self).has_channel(nm)
                    }
                }
            }),
    {
        let ci = match self.find_channel(channel_name.0.as_str()) {
            Some(ci) => ci,
            None => {
                return ;
            },
        };
        proof {
            self.lemma_channel_index(ci as int);
        }
        if !id_vec_contains(&self.channels[ci].members, *client_id) {
            return ;
        }
        // The member is a session that lists the channel.
        proof {
            let w = choose|w: int|
                0 <= w < self.channels@[ci as int].members@.len()
                    && self.channels@[ci as int].members@[w] == *client_id;
            assert(self.has_user(*client_id));
        }
        let ui = match self.find_user(*client_id) {
            Some(i) => i,
            None => {
                proof {
                    assert(false);
                }
                return ;
            },
        };
        let sole = self.channels[ci].members.len() == 1;
        let mut u = self.users.remove(ui);
        u.left_channel(channel_name);
        self.users.insert(ui, u);
        proof {
            assert(self.users@ =~= old(self).users@.update(ui as int, self.users@[ui as int]));
            assert(old(self).users@[ui as int].user.lists_channel(channel_name@)) by {
                let w = choose|w: int|
                    0 <= w < old(self).channels@[ci as int].members@.len()
                        && old(self).channels@[ci as int].members@[w] == *client_id;
                old(self).lemma_user_index(ui as int);
            }
            assert(old(self).users@[ui as int].user.member_of@.len() >= 1);
        }
        if sole {
            let _gone = self.channels.remove(ci);
            proof {
                assert(self.channels@ =~= old(self).channels@.remove(ci as int));
                self.lemma_quit_destroy_wf(*old(self), ui as int, ci as int, channel_name@, *client_id);
                old(self).lemma_user_index(ui as int);
                if self.has_channel(channel_name@) {
                    let w = self.channel_index(channel_name@);
                    assert(self.channels@[w].name@ == channel_name@);
                    let pw = if w < ci as int {
                        w
                    } else {
                        w + 1
                    };
                    assert(old(self).channels@[pw].name@ == channel_name@);
                    if pw < ci as int {
                        assert(old(self).channels@[pw].name@ != old(self).channels@[
                        ci as int].name@);
                    } else {
                        assert(old(self).channels@[ci as int].name@ != old(self).channels@[
                        pw].name@);
                    }
                    assert(false);
                }
            }
        } else {
            let mut c = self.channels.remove(ci);
            c.remove_member(client_id);
            self.channels.insert(ci, c);
            proof {
                assert(self.channels@ =~= old(self).channels@.update(
                    ci as int,
                    self.channels@[ci as int],
                ));
                self.lemma_quit_shrink_wf(*old(self), ui as int, ci as int, channel_name@, *client_id);
                old(self).lemma_user_index(ui as int);
                self.lemma_channel_index(ci as int);
            }
        }
    }

    /// Removing one member from a channel that keeps others, mirrored in
    /// the session's list, preserves the registry invariant.
    #[verifier::spinoff_prover]
    proof fn lemma_quit_shrink_wf(
        self,
        pre: ServerState,
        ui: int,
        ci: int,
        name: Seq<char>,
        id: ClientId,
    )
        requires
            pre.wf(),
            0 <= ui < pre.users@.len(),
            0 <= ci < pre.channels@.len(),
            pre.users@[ui].user.user_id == id,
            pre.channels@[ci].name@ == name,
            pre.channels@[ci].members@.contains(id),
            pre.channels@[ci].members@.len() > 1,
            self.users@ == pre.users@.update(
                ui,
                UserState {
                    user: User {
                        member_of: self.users@[ui].user.member_of,
                        ..pre.users@[ui].user
                    },
                },
            ),
            unique_strings(self.users@[ui].user.member_of@),
            forall|n: Seq<char>|
                self.users@[ui].user.lists_channel(n) == (pre.users@[ui].user.lists_channel(n)
                    && n != name),
            self.channels@ == pre.channels@.update(
                ci,
                IrcChannel {
                    members: self.channels@[ci].members,
                    operators: self.channels@[ci].operators,
                    voiced: self.channels@[ci].voiced,
                    ..pre.channels@[ci]
                },
            ),
            self.channels@[ci].wf(),
            forall|x: ClientId|
                self.channels@[ci].members@.contains(x) == (pre.channels@[ci].members@.contains(x)
                    && x != id),
            forall|x: ClientId|
                self.channels@[ci].operators@.contains(x) == (
                pre.channels@[ci].operators@.contains(x) && x != id),
            forall|x: ClientId|
                self.channels@[ci].voiced@.contains(x) == (pre.channels@[ci].voiced@.contains(x)
                    && x != id),
            self.channels@[ci].members@.len() == pre.channels@[ci].members@.len() - 1,
            self.nick@ == pre.nick@,
            self.next_user_id == pre.next_user_id,
        ensures
            self.wf(),
    {
        let post = self;
        assert forall|a: int, b: int|
            0 <= a < b < post.users@.len() implies (#[trigger] post.users@[a]).user.user_id != (
        #[trigger] post.users@[b]).user.user_id by {
            assert(pre.users@[a].user.user_id != pre.users@[b].user.user_id);
        }
        assert forall|a: int|
            0 <= a < post.users@.len() implies (#[trigger] post.users@[a]).user.user_id.0
            < post.next_user_id && unique_strings(post.users@[a].user.member_of@) by {
            assert(post.users@[a].user.user_id == pre.users@[a].user.user_id);
        }
        assert forall|id2: ClientId| pre.has_user(id2) implies post.has_user(id2)
            && post.user_index(id2) == pre.user_index(id2) by {
            let w = pre.user_index(id2);
            assert(pre.users@[w].user.user_id == id2);
            assert(post.users@[w].user.user_id == id2);
            post.lemma_user_index(w);
        }
        assert forall|a: int, b: int|
            0 <= a < b < post.channels@.len() implies (#[trigger] post.channels@[a]).name@ != (
        #[trigger] post.channels@[b]).name@ by {
            assert(pre.channels@[a].name@ != pre.channels@[b].name@);
        }
        assert forall|a: int|
            0 <= a < post.channels@.len() implies (#[trigger] post.channels@[a]).wf() && (
        post.channels@[a].members@.len() > 0) by {
            if a != ci {
                assert(post.channels@[a] == pre.channels@[a]);
            }
        }
        assert forall|nm: Seq<char>| pre.has_channel(nm) implies post.has_channel(nm)
            && post.channel_index(nm) == pre.channel_index(nm) by {
            let w = pre.channel_index(nm);
            assert(pre.channels@[w].name@ == nm);
            assert(post.channels@[w].name@ == nm);
            post.lemma_channel_index(w);
        }
        assert forall|c2: int, mi: int|
            0 <= c2 < post.channels@.len() && 0 <= mi
                < post.channels@[c2].members@.len() implies {
            let m = #[trigger] post.channels@[c2].members@[mi];
            post.has_user(m) && post.spec_user(m).lists_channel(post.channels@[c2].name@)
        } by {
            let m = post.channels@[c2].members@[mi];
            let pm_contains = pre.channels@[c2].members@.contains(m);
            assert(post.channels@[c2].members@.contains(m));
            if c2 == ci {
                assert(pm_contains && m != id);
            } else {
                assert(post.channels@[c2] == pre.channels@[c2]);
            }
            let w0 = choose|w0: int|
                0 <= w0 < pre.channels@[c2].members@.len() && pre.channels@[c2].members@[w0] == m;
            assert(pre.has_user(m) && pre.spec_user(m).lists_channel(pre.channels@[c2].name@));
            let w = pre.user_index(m);
            assert(post.user_index(m) == w);
            if w == ui {
                assert(m == id) by {
                    pre.lemma_user_index(ui);
                }
                assert(c2 != ci);
                let nm = pre.channels@[c2].name@;
                assert(nm != name) by {
                    if c2 < ci {
                        assert(pre.channels@[c2].name@ != pre.channels@[ci].name@);
                    } else {
                        assert(pre.channels@[ci].name@ != pre.channels@[c2].name@);
                    }
                }
                assert(post.users@[ui].user.lists_channel(nm));
            }
            assert(post.channels@[c2].name@ == pre.channels@[c2].name@);
        }
        assert forall|u2: int, ni: int|
            0 <= u2 < post.users@.len() && 0 <= ni
                < post.users@[u2].user.member_of@.len() implies {
            let nm = (#[trigger] post.users@[u2].user.member_of@[ni])@;
            post.has_channel(nm) && post.spec_channel(nm).members@.contains(
                post.users@[u2].user.user_id,
            )
        } by {
            let nm = (post.users@[u2].user.member_of@[ni])@;
            if u2 == ui {
                assert(post.users@[ui].user.member_of@.contains(
                    post.users@[ui].user.member_of@[ni],
                ));
                assert(post.users@[ui].user.lists_channel(nm));
                assert(pre.users@[ui].user.lists_channel(nm) && nm != name);
                let pni = choose|pni: int|
                    0 <= pni < pre.users@[ui].user.member_of@.len() && (
                    #[trigger] pre.users@[ui].user.member_of@[pni])@ == nm;
                assert(pre.has_channel(nm) && pre.spec_channel(nm).members@.contains(id));
                let w = pre.channel_index(nm);
                assert(post.channel_index(nm) == w);
                assert(w != ci) by {
                    if w == ci {
                        assert(pre.channels@[ci].name@ == nm);
                    }
                }
                assert(post.channels@[w] == pre.channels@[w]);
            } else {
                assert(post.users@[u2] == pre.users@[u2]);
                assert(pre.has_channel(nm) && pre.spec_channel(nm).members@.contains(
                    pre.users@[u2].user.user_id,
                ));
                let w = pre.channel_index(nm);
                assert(post.channel_index(nm) == w);
                if w == ci {
                    assert(pre.users@[u2].user.user_id != id) by {
                        if pre.users@[u2].user.user_id == id {
                            pre.lemma_user_index(u2);
                            pre.lemma_user_index(ui);
                        }
                    }
                }
            }
        }
        assert forall|k: int|
            0 <= k < post.nick@.len() implies {
            let e = #[trigger] post.nick@[k];
            post.has_user(e.1) && post.spec_user(e.1).registered && (post.spec_user(
                e.1,
            ).nick matches Some(s) && s@ == e.0@)
        } by {
            let e = post.nick@[k];
            assert(pre.has_user(e.1));
            let w = pre.user_index(e.1);
            assert(post.user_index(e.1) == w);
            assert(post.users@[w].user.nick == pre.users@[w].user.nick);
            assert(post.users@[w].user.registered == pre.users@[w].user.registered);
        }
        assert forall|u2: int|
            0 <= u2 < post.users@.len() implies ((#[trigger] post.users@[u2]).user.registered
            ==> (post.users@[u2].user.nick matches Some(s) && post.nick_has(
            s@,
            post.users@[u2].user.user_id,
        ))) by {
            if post.users@[u2].user.registered {
                assert(pre.users@[u2].user.registered);
                assert(pre.users@[u2].user.nick matches Some(s) && pre.nick_has(
                    s@,
                    pre.users@[u2].user.user_id,
                ));
                assert(post.users@[u2].user.nick == pre.users@[u2].user.nick);
                assert(post.users@[u2].user.user_id == pre.users@[u2].user.user_id);
            }
        }
    }

    /// Destroying a channel whose only member leaves, mirrored in the
    /// session's list, preserves the registry invariant.
    #[verifier::spinoff_prover]
    proof fn lemma_quit_destroy_wf(
        self,
        pre: ServerState,
        ui: int,
        ci: int,
        name: Seq<char>,
        id: ClientId,
    )
        requires
            pre.wf(),
            0 <= ui < pre.users@.len(),
            0 <= ci < pre.channels@.len(),
            pre.users@[ui].user.user_id == id,
            pre.channels@[ci].name@ == name,
            pre.channels@[ci].members@.contains(id),
            pre.channels@[ci].members@.len() == 1,
            self.users@ == pre.users@.update(
                ui,
                UserState {
                    user: User {
                        member_of: self.users@[ui].user.member_of,
                        ..pre.users@[ui].user
                    },
                },
            ),
            unique_strings(self.users@[ui].user.member_of@),
            forall|n: Seq<char>|
                self.users@[ui].user.lists_channel(n) == (pre.users@[ui].user.lists_channel(n)
                    && n != name),
            self.channels@ == pre.channels@.remove(ci),
            self.nick@ == pre.nick@,
            self.next_user_id == pre.next_user_id,
        ensures
            self.wf(),
    {
        let post = self;
        assert forall|x: int|
            0 <= x < post.channels@.len() implies post.channels@[x] == (if x < ci {
            pre.channels@[x]
        } else {
            pre.channels@[x + 1]
        }) by {}
        assert forall|a: int, b: int|
            0 <= a < b < post.users@.len() implies (#[trigger] post.users@[a]).user.user_id != (
        #[trigger] post.users@[b]).user.user_id by {
            assert(pre.users@[a].user.user_id != pre.users@[b].user.user_id);
        }
        assert forall|a: int|
            0 <= a < post.users@.len() implies (#[trigger] post.users@[a]).user.user_id.0
            < post.next_user_id && unique_strings(post.users@[a].user.member_of@) by {
            assert(post.users@[a].user.user_id == pre.users@[a].user.user_id);
        }
        assert forall|id2: ClientId| pre.has_user(id2) implies post.has_user(id2)
            && post.user_index(id2) == pre.user_index(id2) by {
            let w = pre.user_index(id2);
            assert(pre.users@[w].user.user_id == id2);
            assert(post.users@[w].user.user_id == id2);
            post.lemma_user_index(w);
        }
        assert forall|a: int, b: int|
            0 <= a < b < post.channels@.len() implies (#[trigger] post.channels@[a]).name@ != (
        #[trigger] post.channels@[b]).name@ by {
            let pa = if a < ci {
                a
            } else {
                a + 1
            };
            let pb = if b < ci {
                b
            } else {
                b + 1
            };
            assert(pre.channels@[pa].name@ != pre.channels@[pb].name@);
        }
        assert forall|a: int|
            0 <= a < post.channels@.len() implies (#[trigger] post.channels@[a]).wf() && (
        post.channels@[a].members@.len() > 0) by {
            let pa = if a < ci {
                a
            } else {
                a + 1
            };
            assert(post.channels@[a] == pre.channels@[pa]);
        }
        assert forall|c2: int, mi: int|
            0 <= c2 < post.channels@.len() && 0 <= mi
                < post.channels@[c2].members@.len() implies {
            let m = #[trigger] post.channels@[c2].members@[mi];
            post.has_user(m) && post.spec_user(m).lists_channel(post.channels@[c2].name@)
        } by {
            let pc = if c2 < ci {
                c2
            } else {
                c2 + 1
            };
            let m = post.channels@[c2].members@[mi];
            assert(post.channels@[c2] == pre.channels@[pc]);
            assert(pre.has_user(m) && pre.spec_user(m).lists_channel(pre.channels@[pc].name@));
            let w = pre.user_index(m);
            assert(post.user_index(m) == w);
            if w == ui {
                assert(m == id) by {
                    pre.lemma_user_index(ui);
                }
                let nm = pre.channels@[pc].name@;
                assert(nm != name) by {
                    if pc < ci {
                        assert(pre.channels@[pc].name@ != pre.channels@[ci].name@);
                    } else {
                        assert(pre.channels@[ci].name@ != pre.channels@[pc].name@);
                    }
                }
                assert(post.users@[ui].user.lists_channel(nm));
            }
        }
        assert forall|u2: int, ni: int|
            0 <= u2 < post.users@.len() && 0 <= ni
                < post.users@[u2].user.member_of@.len() implies {
            let nm = (#[trigger] post.users@[u2].user.member_of@[ni])@;
            post.has_channel(nm) && post.spec_channel(nm).members@.contains(
                post.users@[u2].user.user_id,
            )
        } by {
            let nm = (post.users@[u2].user.member_of@[ni])@;
            if u2 == ui {
                assert(post.users@[ui].user.member_of@.contains(
                    post.users@[ui].user.member_of@[ni],
                ));
                assert(post.users@[ui].user.lists_channel(nm));
                assert(pre.users@[ui].user.lists_channel(nm) && nm != name);
                let pni = choose|pni: int|
                    0 <= pni < pre.users@[ui].user.member_of@.len() && (
                    #[trigger] pre.users@[ui].user.member_of@[pni])@ == nm;
                assert((pre.users@[ui].user.member_of@[pni])@ == nm);
                assert(pre.has_channel(nm) && pre.spec_channel(nm).members@.contains(
                    pre.users@[ui].user.user_id,
                ));
            } else {
                assert(post.users@[u2] == pre.users@[u2]);
            }
            assert(pre.has_channel(nm) && pre.spec_channel(nm).members@.contains(
                pre.users@[u2].user.user_id,
            ));
            let w = pre.channel_index(nm);
            assert(w != ci) by {
                if w == ci {
                    assert(pre.channels@[ci].name@ == nm);
                    if u2 == ui {
                    } else {
                        assert(pre.spec_channel(nm).members@.contains(
                            pre.users@[u2].user.user_id,
                        ));
                        assert(pre.channels@[ci].members@[0] == id) by {
                            assert(pre.channels@[ci].members@.contains(id));
                            let z = choose|z: int|
                                0 <= z < pre.channels@[ci].members@.len()
                                    && pre.channels@[ci].members@[z] == id;
                        }
                        let z2 = choose|z2: int|
                            0 <= z2 < pre.channels@[ci].members@.len()
                                && pre.channels@[ci].members@[z2] == pre.users@[u2].user.user_id;
                        assert(pre.users@[u2].user.user_id == id);
                        pre.lemma_user_index(u2);
                        pre.lemma_user_index(ui);
                    }
                }
            }
            let w2 = if w < ci {
                w
            } else {
                w - 1
            };
            assert(post.channels@[w2] == pre.channels@[w]);
            post.lemma_channel_index(w2);
        }
        assert forall|k: int|
            0 <= k < post.nick@.len() implies {
            let e = #[trigger] post.nick@[k];
            post.has_user(e.1) && post.spec_user(e.1).registered && (post.spec_user(
                e.1,
            ).nick matches Some(s) && s@ == e.0@)
        } by {
            let e = post.nick@[k];
            assert(pre.has_user(e.1));
            let w = pre.user_index(e.1);
            assert(post.user_index(e.1) == w);
            assert(post.users@[w].user.nick == pre.users@[w].user.nick);
            assert(post.users@[w].user.registered == pre.users@[w].user.registered);
        }
        assert forall|u2: int|
            0 <= u2 < post.users@.len() implies ((#[trigger] post.users@[u2]).user.registered
            ==> (post.users@[u2].user.nick matches Some(s) && post.nick_has(
            s@,
            post.users@[u2].user.user_id,
        ))) by {
            if post.users@[u2].user.registered {
                assert(pre.users@[u2].user.registered);
                assert(pre.users@[u2].user.nick matches Some(s) && pre.nick_has(
                    s@,
                    pre.users@[u2].user.user_id,
                ));
                assert(post.users@[u2].user.nick == pre.users@[u2].user.nick);
                assert(post.users@[u2].user.user_id == pre.users@[u2].user.user_id);
            }
        }
    }
}


/// Some channel of `names` exists and counts `x` among its members.
pub open spec fn reaches(s: ServerState, names: Seq<String>, x: ClientId) -> bool {
    exists|k: int|
        0 <= k < names.len() && s.has_channel((#[trigger] names[k])@) && s.spec_channel(
            names[k]@,
        ).members@.contains(x)
}

impl ServerState {
    /// Collects, once each, the members of the named channels, leaving out
    /// the excluded connection.
    pub fn get_unique_neighboors(
        &self,
        channel_names: &Vec<String>,
        exclude_id: Option<ClientId>,
    ) -> (r: Vec<ClientId>)
        requires
            self.wf(),
        ensures
            unique_ids(r@),
            forall|x: ClientId|
                r@.contains(x) == (reaches(*self, channel_names@, x) && Some(x) != exclude_id),
    {
        let mut out: Vec<ClientId> = Vec::new();
        let kn = channel_names.len();
        let mut k: usize = 0;
        while k < kn
            invariant
                0 <= k <= kn,
                kn == channel_names@.len(),
                self.wf(),
                unique_ids(out@),
                forall|x: ClientId|
                    out@.contains(x) == (reaches(*self, channel_names@.take(k as int), x) && Some(
                        x,
                    ) != exclude_id),
            decreases kn - k,
        {
            let ghost prefix = channel_names@.take(k as int);
            let ghost prefix2 = channel_names@.take(k as int + 1);
            proof {
                assert(prefix2.drop_last() =~= prefix);
                assert(prefix2.last() == channel_names@[k as int]);
            }
            match self.find_channel(channel_names[k].as_str()) {
                Some(ci) => {
                    proof {
                        self.lemma_channel_index(ci as int);
                    }
                    let mm = self.channels[ci].members.len();
                    let mut mi: usize = 0;
                    while mi < mm
                        invariant
                            0 <= mi <= mm,
                            0 <= k < kn,
                            kn == channel_names@.len(),
                            self.wf(),
                            ci < self.channels@.len(),
                            mm == self.channels@[ci as int].members@.len(),
                            self.channels@[ci as int].name@ == channel_names@[k as int]@,
                            self.channel_index(channel_names@[k as int]@) == ci,
                            unique_ids(out@),
                            prefix == channel_names@.take(k as int),
                            forall|x: ClientId|
                                out@.contains(x) == ((reaches(*self, prefix, x) || (exists|z: int|
                                    0 <= z < mi && self.channels@[ci as int].members@[z] == x))
                                    && Some(x) != exclude_id),
                        decreases mm - mi,
                    {
                        let m = self.channels[ci].members[mi];
                        let skip = match exclude_id {
                            Some(e) => e == m,
                            None => false,
                        };
                        if !skip && !id_vec_contains(&out, m) {
                            let ghost prev = out@;
                            out.push(m);
                            proof {
                                assert(out@.drop_last() =~= prev);
                                assert(out@.last() == m);
                                assert forall|a: int, b: int|
                                    0 <= a < b < out@.len() implies out@[a] != out@[b] by {
                                    if b < out@.len() - 1 {
                                    } else {
                                        assert(out@.drop_last().contains(out@[a]));
                                    }
                                }
                                assert forall|x: ClientId|
                                    out@.contains(x) == ((reaches(*self, prefix, x) || (exists|
                                        z: int,
                                    |
                                        0 <= z < mi + 1 && self.channels@[ci as int].members@[z]
                                            == x)) && Some(x) != exclude_id) by {
                                    if out@.contains(x) {
                                        let w = choose|w: int|
                                            0 <= w < out@.len() && out@[w] == x;
                                        if w < out@.len() - 1 {
                                            assert(out@.drop_last()[w] == x);
                                            assert(out@.drop_last().contains(x));
                                        } else {
                                            assert(x == m);
                                            assert(self.channels@[ci as int].members@[mi as int]
                                                == x);
                                        }
                                    }
                                    if (reaches(*self, prefix, x) || (exists|z: int|
                                        0 <= z < mi + 1 && self.channels@[ci as int].members@[z]
                                            == x)) && Some(x) != exclude_id {
                                        if x == m {
                                        } else {
                                            assert(out@.drop_last().contains(x));
                                            let w = choose|w: int|
                                                0 <= w < out@.drop_last().len()
                                                    && out@.drop_last()[w] == x;
                                            assert(out@[w] == x);
                                        }
                                    }
                                }
                            }
                        } else {
                            proof {
                                assert(self.channels@[ci as int].members@[mi as int] == m);
                            }
                        }
                        mi = mi + 1;
                    }
                    proof {
                        assert forall|x: ClientId|
                            out@.contains(x) == (reaches(*self, prefix2, x) && Some(x)
                                != exclude_id) by {
                            if reaches(*self, prefix2, x) && !reaches(*self, prefix, x) {
                                let z = choose|z: int|
                                    0 <= z < prefix2.len() && self.has_channel(
                                        (#[trigger] prefix2[z])@,
                                    ) && self.spec_channel(prefix2[z]@).members@.contains(x);
                                if z < prefix.len() {
                                    assert(prefix[z] == prefix2[z]);
                                    assert(reaches(*self, prefix, x));
                                } else {
                                    assert(prefix2[z] == channel_names@[k as int]);
                                }
                            }
                            if reaches(*self, prefix, x) {
                                let z = choose|z: int|
                                    0 <= z < prefix.len() && self.has_channel(
                                        (#[trigger] prefix[z])@,
                                    ) && self.spec_channel(prefix[z]@).members@.contains(x);
                                assert(prefix2[z] == prefix[z]);
                                assert(reaches(*self, prefix2, x));
                            }
                        }
                    }
                },
                None => {
                    proof {
                        assert forall|x: ClientId|
                            out@.contains(x) == (reaches(*self, prefix2, x) && Some(x)
                                != exclude_id) by {
                            if reaches(*self, prefix2, x) && !reaches(*self, prefix, x) {
                                let z = choose|z: int|
                                    0 <= z < prefix2.len() && self.has_channel(
                                        (#[trigger] prefix2[z])@,
                                    ) && self.spec_channel(prefix2[z]@).members@.contains(x);
                                if z < prefix.len() {
                                    assert(prefix[z] == prefix2[z]);
                                } else {
                                    assert(prefix2[z] == channel_names@[k as int]);
                                }
                            }
                            if reaches(*self, prefix, x) {
                                let z = choose|z: int|
                                    0 <= z < prefix.len() && self.has_channel(
                                        (#[trigger] prefix[z])@,
                                    ) && self.spec_channel(prefix[z]@).members@.contains(x);
                                assert(prefix2[z] == prefix[z]);
                            }
                        }
                    }
                },
            }
            k = k + 1;
        }
        proof {
            assert(channel_names@.take(kn as int) =~= channel_names@);
        }
        out
    }

    /// One direct delivery of `message` to each member of the named
    /// channels, once per neighbour, leaving out the excluded connection.
    pub fn broadcast_to_neighbors(
        &self,
        channel_names: &Vec<String>,
        message: crate::message_models::DirectIrcMessage,
        exclude_id: Option<ClientId>,
    ) -> (r: Vec<crate::message_models::Outbound>)
        requires
            self.wf(),
        ensures
            forall|i: int|
                0 <= i < r@.len() ==> ((#[trigger] r@[i]) matches
                    crate::message_models::Outbound::Direct { to, message: m } && m.sender
                    == message.sender && m.raw_line == message.raw_line),
            forall|i: int, j: int|
                0 <= i < j < r@.len() ==> (#[trigger] r@[i]).direct_to() != (
                #[trigger] r@[j]).direct_to(),
            forall|x: ClientId|
                (exists|i: int| 0 <= i < r@.len() && (#[trigger] r@[i]).direct_to() == Some(x))
                    == (reaches(*self, channel_names@, x) && Some(x) != exclude_id),
    {
        let targets = self.get_unique_neighboors(channel_names, exclude_id);
        let mut out: Vec<crate::message_models::Outbound> = Vec::new();
        let kn = targets.len();
        let mut i: usize = 0;
        while i < kn
            invariant
                0 <= i <= kn,
                kn == targets@.len(),
                out@.len() == i,
                forall|x: int|
                    0 <= x < i ==> ((#[trigger] out@[x]) matches
                        crate::message_models::Outbound::Direct { to, message: m } && to
                        == targets@[x] && m.sender == message.sender && m.raw_line
                        == message.raw_line),
                forall|x: int| 0 <= x < i ==> (#[trigger] out@[x]).direct_to() == Some(
                    targets@[x],
                ),
            decreases kn - i,
        {
            let m = message.duplicate();
            out.push(crate::message_models::Outbound::Direct { to: targets[i], message: m });
            i = i + 1;
        }
        proof {
            assert(unique_ids(targets@));
            assert forall|a: int, b: int|
                0 <= a < b < out@.len() implies (#[trigger] out@[a]).direct_to() != (
            #[trigger] out@[b]).direct_to() by {
                assert(targets@[a] != targets@[b]);
            }
            assert forall|x: ClientId|
                (exists|w: int| 0 <= w < out@.len() && (#[trigger] out@[w]).direct_to() == Some(
                    x,
                )) == (reaches(*self, channel_names@, x) && Some(x) != exclude_id) by {
                if exists|w: int|
                    0 <= w < out@.len() && (#[trigger] out@[w]).direct_to() == Some(x) {
                    let w = choose|w: int|
                        0 <= w < out@.len() && (#[trigger] out@[w]).direct_to() == Some(x);
                    assert(targets@[w] == x);
                    assert(targets@.contains(x));
                }
                if reaches(*self, channel_names@, x) && Some(x) != exclude_id {
                    assert(targets@.contains(x));
                    let w = choose|w: int| 0 <= w < targets@.len() && targets@[w] == x;
                    assert(out@[w].direct_to() == Some(x));
                }
            }
        }
        out
    }
}


impl ServerState {
    /// Removing a session that belongs to no channel preserves the
    /// registry invariant once its nickname entry is gone.
    proof fn lemma_remove_user_wf(pre: ServerState, post: ServerState, ui: int)
        requires
            pre.wf(),
            0 <= ui < pre.users@.len(),
            pre.users@[ui].user.member_of@.len() == 0,
            forall|k: int|
                0 <= k < pre.nick@.len() ==> (#[trigger] pre.nick@[k]).1
                    != pre.users@[ui].user.user_id,
            post.users@ == pre.users@.remove(ui),
            post.nick@ == pre.nick@,
            post.channels@ == pre.channels@,
            post.next_user_id == pre.next_user_id,
            forall|ci: int, mi: int|
                0 <= ci < pre.channels@.len() && 0 <= mi < pre.channels@[ci].members@.len()
                    ==> (#[trigger] pre.channels@[ci].members@[mi])
                    != pre.users@[ui].user.user_id,
        ensures
            post.wf(),
    {
        let id = pre.users@[ui].user.user_id;
        assert forall|x: int|
            0 <= x < post.users@.len() implies post.users@[x] == (if x < ui {
            pre.users@[x]
        } else {
            pre.users@[x + 1]
        }) by {}
        assert forall|a: int, b: int|
            0 <= a < b < post.users@.len() implies (#[trigger] post.users@[a]).user.user_id != (
        #[trigger] post.users@[b]).user.user_id by {
            let pa = if a < ui { a } else { a + 1 };
            let pb = if b < ui { b } else { b + 1 };
            assert(pre.users@[pa].user.user_id != pre.users@[pb].user.user_id);
        }
        assert forall|a: int|
            0 <= a < post.users@.len() implies (#[trigger] post.users@[a]).user.user_id.0
            < post.next_user_id && unique_strings(post.users@[a].user.member_of@) by {
            let pa = if a < ui { a } else { a + 1 };
            assert(post.users@[a] == pre.users@[pa]);
        }
        assert forall|id2: ClientId|
            pre.has_user(id2) && id2 != id implies post.has_user(id2) by {
            let w = pre.user_index(id2);
            assert(pre.users@[w].user.user_id == id2);
            assert(w != ui) by {
                pre.lemma_user_index(ui);
            }
            if w < ui {
                assert(post.users@[w].user.user_id == id2);
            } else {
                assert(post.users@[w - 1].user.user_id == id2);
            }
        }
        assert forall|id2: ClientId|
            pre.has_user(id2) && id2 != id implies post.spec_user(id2) == pre.spec_user(
            id2,
        ) by {
            let w = pre.user_index(id2);
            assert(pre.users@[w].user.user_id == id2);
            assert(w != ui) by {
                pre.lemma_user_index(ui);
            }
            if w < ui {
                post.lemma_user_index(w);
            } else {
                assert(post.users@[w - 1] == pre.users@[w]);
                post.lemma_user_index(w - 1);
            }
        }
        assert forall|ci: int, mi: int|
            0 <= ci < post.channels@.len() && 0 <= mi
                < post.channels@[ci].members@.len() implies {
            let m = #[trigger] post.channels@[ci].members@[mi];
            post.has_user(m) && post.spec_user(m).lists_channel(post.channels@[ci].name@)
        } by {
            let m = post.channels@[ci].members@[mi];
            assert(m != id);
            assert(pre.has_user(m) && pre.spec_user(m).lists_channel(pre.channels@[ci].name@));
        }
        assert forall|u2: int, ni: int|
            0 <= u2 < post.users@.len() && 0 <= ni
                < post.users@[u2].user.member_of@.len() implies {
            let nm = (#[trigger] post.users@[u2].user.member_of@[ni])@;
            post.has_channel(nm) && post.spec_channel(nm).members@.contains(
                post.users@[u2].user.user_id,
            )
        } by {
            let pu = if u2 < ui { u2 } else { u2 + 1 };
            assert(post.users@[u2] == pre.users@[pu]);
            let nm = (pre.users@[pu].user.member_of@[ni])@;
            assert(pre.has_channel(nm) && pre.spec_channel(nm).members@.contains(
                pre.users@[pu].user.user_id,
            ));
        }
        assert forall|k: int|
            0 <= k < post.nick@.len() implies {
            let e = #[trigger] post.nick@[k];
            post.has_user(e.1) && post.spec_user(e.1).registered && (post.spec_user(
                e.1,
            ).nick matches Some(s) && s@ == e.0@)
        } by {
            let e = post.nick@[k];
            assert(pre.nick@[k] == e);
            assert(e.1 != id);
            assert(pre.has_user(e.1));
        }
        assert forall|u2: int|
            0 <= u2 < post.users@.len() implies ((#[trigger] post.users@[u2]).user.registered
            ==> (post.users@[u2].user.nick matches Some(s) && post.nick_has(
            s@,
            post.users@[u2].user.user_id,
        ))) by {
            let pu = if u2 < ui { u2 } else { u2 + 1 };
            assert(post.users@[u2] == pre.users@[pu]);
            if pre.users@[pu].user.registered {
                assert(pre.users@[pu].user.nick matches Some(s) && pre.nick_has(
                    s@,
                    pre.users@[pu].user.user_id,
                ));
            }
        }
    }

    /// Removes the nickname binding of one session and clears its
    /// registered flag, leaving everything else in place.
    #[verifier::rlimit(100)]
    #[verifier::spinoff_prover]
    fn unbind_and_unregister(&mut self, client_id: ClientId, ui: usize)
        requires
            old(self).wf(),
            ui < old(self).users@.len(),
            old(self).users@[ui as int].user.user_id == client_id,
        ensures
            final(self).wf(),
            final(self).users@ == old(self).users@.update(
                ui as int,
                UserState {
                    user: User { registered: false, ..old(self).users@[ui as int].user },
                },
            ),
            final(self).channels@ == old(self).channels@,
            final(self).ip_counts@ == old(self).ip_counts@,
            final(self).next_user_id == old(self).next_user_id,
            forall|x: int|
                0 <= x < final(self).nick@.len() ==> (#[trigger] final(self).nick@[x]).1
                    != client_id,
            forall|n: Seq<char>, x: ClientId|
                final(self).nick_has(n, x) == (old(self).nick_has(n, x) && x != client_id),
    {
        let ghost pren = self.nick@;
        let entry_k = self.find_entry_by_id(client_id);
        match entry_k {
            Some(k) => {
                self.nick.remove(k);
            },
            None => {},
        }
        let ghost nick2 = self.nick@;
        let mut u0 = self.users.remove(ui);
        u0.user.registered = false;
        self.users.insert(ui, u0);
        proof {
            let pre = *old(self);
            assert(self.users@ =~= pre.users@.update(ui as int, self.users@[ui as int]));
            assert(self.nick@ == nick2);
            if entry_k is Some {
                let k = entry_k.unwrap() as int;
                assert(pren[k].1 == client_id);
                assert(nick2 =~= pren.subrange(0, k) + pren.skip(k + 1));
                assert forall|x: int|
                    0 <= x < nick2.len() implies nick2[x] == (if x < k {
                    pren[x]
                } else {
                    pren[x + 1]
                }) by {}
                assert forall|x: int|
                    0 <= x < nick2.len() implies (#[trigger] nick2[x]).1 != client_id by {
                    let px = if x < k {
                        x
                    } else {
                        x + 1
                    };
                    if pren[px].1 == client_id {
                        pre.lemma_nick_entry_unique(px, k);
                    }
                }
                assert forall|a: int, b: int|
                    0 <= a < b < nick2.len() implies (#[trigger] nick2[a]).0@ != (
                #[trigger] nick2[b]).0@ by {
                    let pa = if a < k {
                        a
                    } else {
                        a + 1
                    };
                    let pb = if b < k {
                        b
                    } else {
                        b + 1
                    };
                    assert(pren[pa].0@ != pren[pb].0@);
                }
                assert forall|n: Seq<char>, x: ClientId|
                    self.nick_has(n, x) == (pre.nick_has(n, x) && x != client_id) by {
                    if self.nick_has(n, x) {
                        let w = choose|w: int|
                            0 <= w < nick2.len() && (#[trigger] nick2[w]).0@ == n && nick2[w].1
                                == x;
                        let pw = if w < k {
                            w
                        } else {
                            w + 1
                        };
                        assert(pren[pw].0@ == n && pren[pw].1 == x);
                    }
                    if pre.nick_has(n, x) && x != client_id {
                        let w = choose|w: int|
                            0 <= w < pren.len() && (#[trigger] pren[w]).0@ == n && pren[w].1
                                == x;
                        assert(w != k);
                        if w < k {
                            assert(nick2[w] == pren[w]);
                        } else {
                            assert(nick2[w - 1] == pren[w]);
                        }
                    }
                }
            } else {
                assert(nick2 == pren);
                assert forall|n: Seq<char>, x: ClientId|
                    self.nick_has(n, x) == (pre.nick_has(n, x) && x != client_id) by {
                    if pre.nick_has(n, x) && x == client_id {
                        let w = choose|w: int|
                            0 <= w < pren.len() && (#[trigger] pren[w]).0@ == n && pren[w].1
                                == x;
                        assert(false);
                    }
                }
            }
            self.lemma_unbound_wf(pre, ui as int, client_id);
        }
    }

    /// Takes a session out of every channel it lists, destroying the
    /// channels it leaves empty.
    #[verifier::spinoff_prover]
    fn leave_all_channels(&mut self, client_id: ClientId, ui: usize)
        requires
            old(self).wf(),
            ui < old(self).users@.len(),
            old(self).users@[ui as int].user.user_id == client_id,
        ensures
            final(self).wf(),
            final(self).users@.len() == old(self).users@.len(),
            forall|x: int|
                0 <= x < old(self).users@.len() && x != ui as int ==> final(self).users@[x]
                    == old(self).users@[x],
            final(self).users@[ui as int].user.member_of@.len() == 0,
            final(self).users@[ui as int].user.identity() == old(self).users@[
                ui as int].user.identity(),
            final(self).nick@ == old(self).nick@,
            final(self).ip_counts@ == old(self).ip_counts@,
            final(self).next_user_id == old(self).next_user_id,
            forall|nm: Seq<char>|
                final(self).has_channel(nm) == (old(self).has_channel(nm) && (exists|x: ClientId|
                    old(self).spec_channel(nm).members@.contains(x) && x != client_id)),
            forall|nm: Seq<char>|
                final(self).has_channel(nm) ==> {
                    let c2 = final(self).spec_channel(nm);
                    let c1 = old(self).spec_channel(nm);
                    (forall|x: ClientId|
                        c2.members@.contains(x) == (c1.members@.contains(x) && x != client_id))
                        && c2.name == c1.name && c2.topic == c1.topic
                },
    {
        proof {
            old(self).lemma_user_index(ui as int);
            assert(*self == *old(self));
            assert forall|nm: Seq<char>|
                !self.users@[ui as int].user.lists_channel(nm) implies {
                &&& self.has_channel(nm) == (old(self).has_channel(nm) && (exists|x: ClientId|
                    old(self).spec_channel(nm).members@.contains(x) && x != client_id))
                &&& self.has_channel(nm) ==> {
                    let c2 = self.spec_channel(nm);
                    let c1 = old(self).spec_channel(nm);
                    (forall|x: ClientId|
                        c2.members@.contains(x) == (c1.members@.contains(x) && x != client_id))
                        && c2.name == c1.name && c2.topic == c1.topic
                }
            } by {
                if old(self).has_channel(nm) {
                    let w = old(self).channel_index(nm);
                    assert(!old(self).spec_channel(nm).members@.contains(client_id)) by {
                        if old(self).spec_channel(nm).members@.contains(client_id) {
                            let mi = choose|mi: int|
                                0 <= mi < old(self).channels@[w].members@.len() && old(
                                    self,
                                ).channels@[w].members@[mi] == client_id;
                            assert(old(self).spec_user(client_id).lists_channel(nm));
                        }
                    }
                    assert(old(self).channels@[w].members@.len() > 0);
                    let sv = old(self).channels@[w].members@[0];
                    assert(old(self).channels@[w].members@.contains(sv));
                    assert(sv != client_id);
                }
            }
        }
        loop
            invariant
                self.wf(),
                self.has_user(client_id),
                self.user_index(client_id) == ui as int,
                ui < self.users@.len(),
                self.users@.len() == old(self).users@.len(),
                forall|x: int|
                    0 <= x < old(self).users@.len() && x != ui as int ==> self.users@[x] == old(
                        self,
                    ).users@[x],
                self.users@[ui as int].user.user_id == client_id,
                self.users@[ui as int].user.identity() == old(self).users@[
                    ui as int].user.identity(),
                self.nick@ == old(self).nick@,
                self.ip_counts@ == old(self).ip_counts@,
                self.next_user_id == old(self).next_user_id,
                forall|n: Seq<char>|
                    self.users@[ui as int].user.lists_channel(n) ==> old(self).users@[
                    ui as int].user.lists_channel(n),
                forall|nm: Seq<char>|
                    self.users@[ui as int].user.lists_channel(nm) ==> (self.has_channel(nm)
                        && old(self).has_channel(nm) && self.spec_channel(nm) == old(
                        self,
                    ).spec_channel(nm)),
                forall|nm: Seq<char>|
                    !self.users@[ui as int].user.lists_channel(nm) ==> {
                        &&& self.has_channel(nm) == (old(self).has_channel(nm) && (exists|
                            x: ClientId,
                        |
                            old(self).spec_channel(nm).members@.contains(x) && x != client_id))
                        &&& self.has_channel(nm) ==> {
                            let c2 = self.spec_channel(nm);
                            let c1 = old(self).spec_channel(nm);
                            (forall|x: ClientId|
                                c2.members@.contains(x) == (c1.members@.contains(x) && x
                                    != client_id)) && c2.name == c1.name && c2.topic == c1.topic
                        }
                    },
            ensures
                self.users@[ui as int].user.member_of@.len() == 0,
            decreases self.users@[ui as int].user.member_of@.len(),
        {
            if self.users[ui].user.member_of.len() == 0 {
                break ;
            }
            let name0 = self.users[ui].user.member_of[0].clone();
            let cn = crate::types::ChannelName(name0);
            let ghost pre_it = *self;
            proof {
                assert(pre_it.users@[ui as int].user.member_of@[0] == self.users@[
                ui as int].user.member_of@[0]);
                assert(pre_it.users@[ui as int].user.lists_channel(cn@));
                assert(pre_it.has_channel(cn@) && pre_it.spec_channel(cn@).members@.contains(
                    client_id,
                ));
                pre_it.lemma_user_index(ui as int);
            }
            self.quit_channel(&client_id, &cn);
            proof {
                let post = *self;
                let nm0 = cn@;
                let ci = pre_it.channel_index(nm0);
                pre_it.lemma_channel_index(ci);
                assert(post.user_index(client_id) == ui as int) by {
                    assert(post.users@[ui as int].user.user_id == client_id);
                    post.lemma_user_index(ui as int);
                }
                if pre_it.spec_channel(nm0).members@.len() > 1 {
                    assert forall|nm: Seq<char>|
                        nm != nm0 && pre_it.has_channel(nm) implies post.has_channel(nm)
                        && post.spec_channel(nm) == pre_it.spec_channel(nm) by {
                        let w = pre_it.channel_index(nm);
                        assert(pre_it.channels@[w].name@ == nm);
                        assert(w != ci);
                        assert(post.channels@[w] == pre_it.channels@[w]);
                        post.lemma_channel_index(w);
                    }
                    assert forall|nm: Seq<char>|
                        post.has_channel(nm) implies pre_it.has_channel(nm) by {
                        let w = post.channel_index(nm);
                        assert(post.channels@[w].name@ == nm);
                        if w == ci {
                            assert(pre_it.channels@[ci].name@ == nm);
                        } else {
                            assert(pre_it.channels@[w].name@ == nm);
                        }
                    }
                    assert(post.has_channel(nm0) && post.channel_index(nm0) == ci);
                    assert(exists|x: ClientId|
                        old(self).spec_channel(nm0).members@.contains(x) && x != client_id) by {
                        let c1 = pre_it.spec_channel(nm0);
                        let a = c1.members@[0];
                        let b = c1.members@[1];
                        assert(a != b);
                        assert(c1.members@.contains(a) && c1.members@.contains(b));
                        if a != client_id {
                            assert(c1.members@.contains(a) && a != client_id);
                        } else {
                            assert(c1.members@.contains(b) && b != client_id);
                        }
                    }
                } else {
                    assert(post.channels@ == pre_it.channels@.remove(ci));
                    assert forall|x: int|
                        0 <= x < post.channels@.len() implies post.channels@[x] == (if x < ci {
                        pre_it.channels@[x]
                    } else {
                        pre_it.channels@[x + 1]
                    }) by {}
                    assert forall|nm: Seq<char>|
                        nm != nm0 && pre_it.has_channel(nm) implies post.has_channel(nm)
                        && post.spec_channel(nm) == pre_it.spec_channel(nm) by {
                        let w = pre_it.channel_index(nm);
                        assert(pre_it.channels@[w].name@ == nm);
                        assert(w != ci);
                        let w2 = if w < ci {
                            w
                        } else {
                            w - 1
                        };
                        assert(post.channels@[w2] == pre_it.channels@[w]);
                        post.lemma_channel_index(w2);
                    }
                    assert forall|nm: Seq<char>|
                        post.has_channel(nm) implies pre_it.has_channel(nm) && nm != nm0 by {
                        let w = post.channel_index(nm);
                        assert(post.channels@[w].name@ == nm);
                        let pw = if w < ci {
                            w
                        } else {
                            w + 1
                        };
                        assert(pre_it.channels@[pw].name@ == nm);
                        if nm == nm0 {
                            if pw < ci {
                                assert(pre_it.channels@[pw].name@ != pre_it.channels@[ci].name@);
                            } else {
                                assert(pre_it.channels@[ci].name@ != pre_it.channels@[pw].name@);
                            }
                        }
                    }
                    assert(!(exists|x: ClientId|
                        old(self).spec_channel(nm0).members@.contains(x) && x != client_id)) by {
                        let c1 = pre_it.spec_channel(nm0);
                        assert(c1.members@.len() == 1);
                        if exists|x: ClientId|
                            old(self).spec_channel(nm0).members@.contains(x) && x != client_id {
                            let x = choose|x: ClientId|
                                old(self).spec_channel(nm0).members@.contains(x) && x
                                    != client_id;
                            let wx = choose|wx: int|
                                0 <= wx < c1.members@.len() && c1.members@[wx] == x;
                            let wy = choose|wy: int|
                                0 <= wy < c1.members@.len() && c1.members@[wy] == client_id;
                            assert(wx == 0 && wy == 0);
                        }
                    }
                }
            }
        }
    }

    /// Tears a session down: removes it from every channel it belongs to
    /// (destroying channels it leaves empty), unbinds its nickname, drops
    /// the session, and hands back one QUIT relay per neighbour.
    #[verifier::rlimit(100)]
    #[verifier::spinoff_prover]
    pub fn handle_quit(&mut self, client_id: ClientId, reason: Option<String>) -> (r: Vec<
        crate::message_models::Outbound,
    >)
        requires
            old(self).wf(),
        ensures
            final(self).wf(),
            !old(self).has_user(client_id) ==> *final(self) == *old(self) && r@.len() == 0,
            old(self).has_user(client_id) ==> {
                let quitter = old(self).spec_user(client_id);
                &&& !final(self).has_user(client_id)
                &&& forall|id2: ClientId|
                    id2 != client_id ==> final(self).has_user(id2) == old(self).has_user(id2)
                &&& forall|id2: ClientId|
                    id2 != client_id && old(self).has_user(id2) ==> final(self).spec_user(id2)
                        == old(self).spec_user(id2)
                &&& forall|n: Seq<char>, x: ClientId|
                    final(self).nick_has(n, x) == (old(self).nick_has(n, x) && x != client_id)
                &&& forall|nm: Seq<char>|
                    final(self).has_channel(nm) == (old(self).has_channel(nm) && (exists|
                        x: ClientId,
                    |
                        old(self).spec_channel(nm).members@.contains(x) && x != client_id))
                &&& forall|nm: Seq<char>|
                    final(self).has_channel(nm) ==> {
                        let c2 = final(self).spec_channel(nm);
                        let c1 = old(self).spec_channel(nm);
                        (forall|x: ClientId|
                            c2.members@.contains(x) == (c1.members@.contains(x) && x
                                != client_id)) && c2.name == c1.name && c2.topic == c1.topic
                    }
                &&& final(self).ip_counts@ == old(self).ip_counts@
                &&& final(self).next_user_id == old(self).next_user_id
                &&& if quitter.nick is Some && quitter.user is Some {
                    &&& forall|i: int|
                        0 <= i < r@.len() ==> ((#[trigger] r@[i]) matches
                            crate::message_models::Outbound::Direct { to, message: m }
                            && m.raw_line@ == crate::message_models::crlf_terminated(
                            crate::replies::quit_msg_text(
                                quitter.nick.unwrap()@,
                                quitter.user.unwrap()@,
                                quitter.host@,
                                match reason {
                                    Some(t) => t@,
                                    None => "Client Quit"@,
                                },
                            ),
                        ))
                    &&& forall|i: int, j: int|
                        0 <= i < j < r@.len() ==> (#[trigger] r@[i]).direct_to() != (
                        #[trigger] r@[j]).direct_to()
                    &&& forall|x: ClientId|
                        (exists|i: int|
                            0 <= i < r@.len() && (#[trigger] r@[i]).direct_to() == Some(x)) == (
                        reaches(*old(self), quitter.member_of@, x) && x != client_id)
                } else {
                    r@.len() == 0
                }
            },
    {
        let ui = match self.find_user(client_id) {
            Some(i) => i,
            None => {
                return Vec::new();
            },
        };
        let snap = self.users[ui].clone_state();
        proof {
            old(self).lemma_user_index(ui as int);
        }
        // The QUIT relay, one per neighbour.
        let outs: Vec<crate::message_models::Outbound> = match (&snap.user.nick, &snap.user.user) {
            (Some(nk), Some(us)) => {
                let reason_text: String = match &reason {
                    Some(t) => t.clone(),
                    None => {
                        let d = String::from_str("Client Quit");
                        proof {
                            reveal_strlit("Client Quit");
                        }
                        d
                    },
                };
                let nickname = crate::types::Nickname(nk.clone());
                let username = crate::types::Username(us.clone());
                let relay = crate::replies::MessageReply::QuitMsg {
                    nick: &nickname,
                    user: &username,
                    host: snap.user.host.as_str(),
                    reason: reason_text.as_str(),
                };
                let line = relay.format();
                let msg = crate::message_models::DirectIrcMessage::new(line);
                self.broadcast_to_neighbors(&snap.user.member_of, msg, Some(client_id))
            },
            _ => Vec::new(),
        };
        proof {
            let quitter0 = old(self).spec_user(client_id);
            assert(snap.user.nick == quitter0.nick);
            assert(snap.user.user == quitter0.user);
            assert(snap.user.host == quitter0.host);
            assert(snap.user.member_of@ == quitter0.member_of@);
            if quitter0.nick is Some && quitter0.user is Some {
                assert forall|x: ClientId|
                    (exists|i: int|
                        0 <= i < outs@.len() && (#[trigger] outs@[i]).direct_to() == Some(x))
                        == (reaches(*old(self), quitter0.member_of@, x) && x != client_id) by {
                    let reach_snap = reaches(*old(self), snap.user.member_of@, x);
                    let reach_quit = reaches(*old(self), quitter0.member_of@, x);
                    assert(reach_snap == reach_quit);
                    assert((exists|i: int|
                        0 <= i < outs@.len() && (#[trigger] outs@[i]).direct_to() == Some(x))
                        == (reach_snap && Some(x) != Some(client_id)));
                }
            } else {
                assert(outs@.len() == 0);
            }
        }
        self.unbind_and_unregister(client_id, ui);
        let ghost mid1 = *self;
        proof {
            // the channel view is untouched so far
            assert forall|nm: Seq<char>| mid1.has_channel(nm) == old(self).has_channel(nm)
                && (old(self).has_channel(nm) ==> mid1.spec_channel(nm) == old(self).spec_channel(
                nm,
            )) by {
                if old(self).has_channel(nm) {
                    let w = old(self).channel_index(nm);
                    assert(mid1.channels@[w].name@ == nm);
                    mid1.lemma_channel_index(w);
                }
                if mid1.has_channel(nm) {
                    let w = mid1.channel_index(nm);
                    assert(old(self).channels@[w].name@ == nm);
                    old(self).lemma_channel_index(w);
                }
            }
        }
        self.leave_all_channels(client_id, ui);
        let ghost mid2 = *self;
        // Finally drop the session itself.
        let ghost pre_rm = *self;
        let _gone = self.users.remove(ui);
        proof {
            assert(self.users@ =~= pre_rm.users@.remove(ui as int));
            assert forall|ci: int, mi: int|
                0 <= ci < pre_rm.channels@.len() && 0 <= mi
                    < pre_rm.channels@[ci].members@.len() implies (
            #[trigger] pre_rm.channels@[ci].members@[mi]) != client_id by {
                let m = pre_rm.channels@[ci].members@[mi];
                if m == client_id {
                    assert(pre_rm.spec_user(m).lists_channel(pre_rm.channels@[ci].name@));
                    pre_rm.lemma_user_index(ui as int);
                }
            }
            assert forall|k: int|
                0 <= k < pre_rm.nick@.len() implies (#[trigger] pre_rm.nick@[k]).1
                != client_id by {}
            assert(pre_rm.users@[ui as int].user.user_id == client_id);
            ServerState::lemma_remove_user_wf(pre_rm, *self, ui as int);
            if self.has_user(client_id) {
                let w = self.user_index(client_id);
                assert(self.users@[w].user.user_id == client_id);
                let pw = if w < ui as int {
                    w
                } else {
                    w + 1
                };
                assert(pre_rm.users@[pw].user.user_id == client_id);
                if pw != ui as int {
                    pre_rm.lemma_user_index(ui as int);
                    pre_rm.lemma_user_index(pw);
                }
                assert(false);
            }
            // other sessions survive unchanged
            assert forall|id2: ClientId|
                id2 != client_id implies self.has_user(id2) == old(self).has_user(id2) by {
                if old(self).has_user(id2) {
                    let w = old(self).user_index(id2);
                    assert(old(self).users@[w].user.user_id == id2);
                    assert(w != ui as int) by {
                        old(self).lemma_user_index(ui as int);
                        old(self).lemma_user_index(w);
                    }
                    assert(pre_rm.users@[w].user.user_id == id2);
                    let w2 = if w < ui as int {
                        w
                    } else {
                        w - 1
                    };
                    assert(self.users@[w2].user.user_id == id2);
                }
                if self.has_user(id2) {
                    let w = self.user_index(id2);
                    assert(self.users@[w].user.user_id == id2);
                    let pw = if w < ui as int {
                        w
                    } else {
                        w + 1
                    };
                    assert(pre_rm.users@[pw].user.user_id == id2);
                    assert(old(self).users@[pw].user.user_id == id2);
                }
            }
            assert forall|id2: ClientId|
                id2 != client_id && old(self).has_user(id2) implies self.spec_user(id2) == old(
                self,
            ).spec_user(id2) by {
                let w = old(self).user_index(id2);
                assert(old(self).users@[w].user.user_id == id2);
                assert(w != ui as int) by {
                    old(self).lemma_user_index(ui as int);
                    old(self).lemma_user_index(w);
                }
                assert(pre_rm.users@[w] == old(self).users@[w]);
                let w2 = if w < ui as int {
                    w
                } else {
                    w - 1
                };
                assert(self.users@[w2] == pre_rm.users@[w]);
                self.lemma_user_index(w2);
            }
            // the channel account carries over from the leave loop
            assert forall|nm: Seq<char>|
                self.has_channel(nm) == (old(self).has_channel(nm) && (exists|x: ClientId|
                    old(self).spec_channel(nm).members@.contains(x) && x != client_id)) by {
                assert(self.channels@ == mid2.channels@);
                assert(mid2.has_channel(nm) == (mid1.has_channel(nm) && (exists|x: ClientId|
                    mid1.spec_channel(nm).members@.contains(x) && x != client_id)));
                assert(mid1.has_channel(nm) == old(self).has_channel(nm));
                if old(self).has_channel(nm) {
                    assert(mid1.spec_channel(nm) == old(self).spec_channel(nm));
                }
            }
            assert forall|nm: Seq<char>|
                self.has_channel(nm) implies {
                let c2 = self.spec_channel(nm);
                let c1 = old(self).spec_channel(nm);
                (forall|x: ClientId|
                    c2.members@.contains(x) == (c1.members@.contains(x) && x != client_id))
                    && c2.name == c1.name && c2.topic == c1.topic
            } by {
                assert(self.channels@ == mid2.channels@);
                assert(mid2.has_channel(nm));
                assert(self.spec_channel(nm) == mid2.spec_channel(nm));
                assert(mid1.spec_channel(nm) == old(self).spec_channel(nm));
            }
            // the quitter's snapshot reads the fields the relay used
            old(self).lemma_user_index(ui as int);
            let quitter = old(self).spec_user(client_id);
            assert(snap.user.nick == quitter.nick);
            assert(snap.user.user == quitter.user);
            assert(snap.user.host == quitter.host);
            assert(snap.user.member_of@ == quitter.member_of@);
            assert(!self.has_user(client_id));
            assert(forall|id2: ClientId|
                id2 != client_id ==> self.has_user(id2) == old(self).has_user(id2));
            assert(forall|id2: ClientId|
                id2 != client_id && old(self).has_user(id2) ==> self.spec_user(id2) == old(
                    self,
                ).spec_user(id2));
            assert(self.nick@ == mid1.nick@);
            assert(forall|n: Seq<char>, x: ClientId|
                self.nick_has(n, x) == (old(self).nick_has(n, x) && x != client_id));
            assert(self.ip_counts@ == old(self).ip_counts@);
            assert(self.next_user_id == old(self).next_user_id);
            if quitter.nick is Some && quitter.user is Some {
                assert(forall|i: int|
                    0 <= i < outs@.len() ==> ((#[trigger] outs@[i]) matches
                        crate::message_models::Outbound::Direct { to, message: m }
                        && m.raw_line@ == crate::message_models::crlf_terminated(
                        crate::replies::quit_msg_text(
                            quitter.nick.unwrap()@,
                            quitter.user.unwrap()@,
                            quitter.host@,
                            match reason {
                                Some(t) => t@,
                                None => "Client Quit"@,
                            },
                        ),
                    )));
                assert(forall|i: int, j: int|
                    0 <= i < j < outs@.len() ==> (#[trigger] outs@[i]).direct_to() != (
                    #[trigger] outs@[j]).direct_to());
                assert forall|x: ClientId|
                    (exists|i: int|
                        0 <= i < outs@.len() && (#[trigger] outs@[i]).direct_to() == Some(x)) == (
                reaches(*old(self), quitter.member_of@, x) && x != client_id) by {
                    assert(snap.user.member_of@ == quitter.member_of@);
                    assert(reaches(*old(self), snap.user.member_of@, x) == reaches(
                        *old(self),
                        quitter.member_of@,
                        x,
                    ));
                }
            } else {
                assert(outs@.len() == 0);
            }
        }
        outs
    }

    /// After the nickname entry of one session is removed and the session
    /// is marked unregistered, the registry is well formed again.
    proof fn lemma_unbound_wf(self, pre: ServerState, ui: int, id: ClientId)
        requires
            pre.wf(),
            0 <= ui < pre.users@.len(),
            pre.users@[ui].user.user_id == id,
            self.users@ == pre.users@.update(
                ui,
                UserState { user: User { registered: false, ..pre.users@[ui].user } },
            ),
            self.channels@ == pre.channels@,
            self.next_user_id == pre.next_user_id,
            forall|x: int| 0 <= x < self.nick@.len() ==> (#[trigger] self.nick@[x]).1 != id,
            forall|n: Seq<char>, x: ClientId| self.nick_has(n, x) ==> pre.nick_has(n, x),
            forall|n: Seq<char>, x: ClientId|
                pre.nick_has(n, x) && x != id ==> self.nick_has(n, x),
            forall|a: int, b: int|
                0 <= a < b < self.nick@.len() ==> (#[trigger] self.nick@[a]).0@ != (
                #[trigger] self.nick@[b]).0@,
        ensures
            self.wf(),
    {
        let post = self;
        assert forall|a: int, b: int|
            0 <= a < b < post.users@.len() implies (#[trigger] post.users@[a]).user.user_id != (
        #[trigger] post.users@[b]).user.user_id by {
            assert(pre.users@[a].user.user_id != pre.users@[b].user.user_id);
        }
        assert forall|a: int|
            0 <= a < post.users@.len() implies (#[trigger] post.users@[a]).user.user_id.0
            < post.next_user_id && unique_strings(post.users@[a].user.member_of@) by {
            assert(post.users@[a].user.user_id == pre.users@[a].user.user_id);
            assert(post.users@[a].user.member_of@ == pre.users@[a].user.member_of@);
        }
        assert forall|id2: ClientId| pre.has_user(id2) implies post.has_user(id2)
            && post.user_index(id2) == pre.user_index(id2) by {
            let w = pre.user_index(id2);
            assert(pre.users@[w].user.user_id == id2);
            assert(post.users@[w].user.user_id == id2);
            post.lemma_user_index(w);
        }
        assert forall|ci: int, mi: int|
            0 <= ci < post.channels@.len() && 0 <= mi
                < post.channels@[ci].members@.len() implies {
            let m = #[trigger] post.channels@[ci].members@[mi];
            post.has_user(m) && post.spec_user(m).lists_channel(post.channels@[ci].name@)
        } by {
            let m = post.channels@[ci].members@[mi];
            assert(pre.has_user(m) && pre.spec_user(m).lists_channel(pre.channels@[ci].name@));
            let w = pre.user_index(m);
            assert(post.users@[w].user.member_of@ == pre.users@[w].user.member_of@);
        }
        assert forall|u2: int, ni: int|
            0 <= u2 < post.users@.len() && 0 <= ni
                < post.users@[u2].user.member_of@.len() implies {
            let nm = (#[trigger] post.users@[u2].user.member_of@[ni])@;
            post.has_channel(nm) && post.spec_channel(nm).members@.contains(
                post.users@[u2].user.user_id,
            )
        } by {
            assert(post.users@[u2].user.member_of@ == pre.users@[u2].user.member_of@);
            assert(post.users@[u2].user.user_id == pre.users@[u2].user.user_id);
            let nm = (pre.users@[u2].user.member_of@[ni])@;
            assert(pre.has_channel(nm) && pre.spec_channel(nm).members@.contains(
                pre.users@[u2].user.user_id,
            ));
        }
        assert forall|k: int|
            0 <= k < post.nick@.len() implies {
            let e = #[trigger] post.nick@[k];
            post.has_user(e.1) && post.spec_user(e.1).registered && (post.spec_user(
                e.1,
            ).nick matches Some(s) && s@ == e.0@)
        } by {
            let e = post.nick@[k];
            assert(post.nick_has(e.0@, e.1));
            assert(pre.nick_has(e.0@, e.1));
            let px = choose|px: int|
                0 <= px < pre.nick@.len() && (#[trigger] pre.nick@[px]).0@ == e.0@
                    && pre.nick@[px].1 == e.1;
            assert(pre.has_user(e.1) && pre.spec_user(e.1).registered);
            let w = pre.user_index(e.1);
            assert(w != ui) by {
                if w == ui {
                    pre.lemma_user_index(ui);
                }
            }
            assert(post.users@[w] == pre.users@[w]);
            assert(post.user_index(e.1) == w);
        }
        assert forall|u2: int|
            0 <= u2 < post.users@.len() implies ((#[trigger] post.users@[u2]).user.registered
            ==> (post.users@[u2].user.nick matches Some(s) && post.nick_has(
            s@,
            post.users@[u2].user.user_id,
        ))) by {
            if post.users@[u2].user.registered {
                assert(u2 != ui);
                assert(post.users@[u2] == pre.users@[u2]);
                assert(pre.users@[u2].user.nick matches Some(s) && pre.nick_has(
                    s@,
                    pre.users@[u2].user.user_id,
                ));
                assert(pre.users@[u2].user.user_id != id) by {
                    if pre.users@[u2].user.user_id == id {
                        pre.lemma_user_index(u2);
                        pre.lemma_user_index(ui);
                    }
                }
            }
        }
    }
}

} // verus!
