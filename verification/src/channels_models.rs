//! Channel state: membership, privileges, topic and modes.

use vstd::prelude::*;

use crate::types::{ChannelName, Topic};
use crate::ClientId;

verus! {

/// The channel family its name prefix announces.
#[derive(Debug, Clone, Copy, PartialEq, Eq, Structural)]
pub enum ChannelType {
    /// "#": known across the network.
    Network,
    /// "&": local to the server.
    Local,
    /// "+": no modes.
    Modeless,
    /// "!": safe channels with an identifier.
    Safe,
}

/// What a join attempt or another channel operation came to.
#[derive(Debug, Clone, Copy, PartialEq, Eq, Structural)]
pub enum IrcChannelOperationStatus {
    NewJoin,
    AlreadyMember,
    InviteOnlyChan,
    ChannelIsFull,
    NoSuchChannel,
    TooManyTargets,
    BannedFromChan,
    BadChannelKey,
    BadChanMask,
    TooManyChannels,
    UnavailableResource,
}

/// The channel modes: admission flags, key, user limit and the three
/// admission lists.
#[derive(Debug, Clone)]
pub struct ChannelModes {
    pub invite_only: bool,
    pub moderated: bool,
    pub no_external_msgs: bool,
    pub private: bool,
    pub secret: bool,
    pub topic_lock: bool,
    pub key: Option<String>,
    pub user_limit: Option<usize>,
    pub ban_list: Vec<ClientId>,
    pub except_list: Vec<ClientId>,
    pub invite_exceptions: Vec<ClientId>,
}

impl ChannelModes {
    /// Every flag off, no key, no limit, empty lists.
    pub open spec fn is_fresh(self) -> bool {
        &&& !self.invite_only
        &&& !self.moderated
        &&& !self.no_external_msgs
        &&& !self.private
        &&& !self.secret
        &&& !self.topic_lock
        &&& self.key is None
        &&& self.user_limit is None
        &&& self.ban_list@.len() == 0
        &&& self.except_list@.len() == 0
        &&& self.invite_exceptions@.len() == 0
    }

    pub fn new() -> (r: ChannelModes)
        ensures
            r.is_fresh(),
    {
        ChannelModes {
            invite_only: false,
            moderated: false,
            no_external_msgs: false,
            private: false,
            secret: false,
            topic_lock: false,
            key: None,
            user_limit: None,
            ban_list: Vec::new(),
            except_list: Vec::new(),
            invite_exceptions: Vec::new(),
        }
    }
}

/// No connection stands twice in a privilege or membership list.
pub open spec fn unique_ids(v: Seq<ClientId>) -> bool {
    forall|i: int, j: int| 0 <= i < j < v.len() ==> v[i] != v[j]
}

/// Whether `v` holds `id`.
pub(crate) fn id_vec_contains(v: &Vec<ClientId>, id: ClientId) -> (r: bool)
    ensures
        r == v@.contains(id),
{
    let k = v.len();
    let mut i: usize = 0;
    while i < k
        invariant
            0 <= i <= k,
            k == v@.len(),
            forall|x: int| 0 <= x < i ==> v@[x] != id,
        decreases k - i,
    {
        if v[i] == id {
            return true;
        }
        i = i + 1;
    }
    false
}

/// Removes `id` from `v` where it stands.
pub(crate) fn id_vec_remove(v: &mut Vec<ClientId>, id: ClientId)
    requires
        unique_ids(old(v)@),
    ensures
        unique_ids(final(v)@),
        forall|x: ClientId| final(v)@.contains(x) == (old(v)@.contains(x) && x != id),
        old(v)@.contains(id) ==> final(v)@.len() == old(v)@.len() - 1,
        !old(v)@.contains(id) ==> final(v)@ == old(v)@,
{
    let k = v.len();
    let mut i: usize = 0;
    while i < k
        invariant
            0 <= i <= k,
            k == v@.len(),
            v == old(v),
            unique_ids(v@),
            forall|x: int| 0 <= x < i ==> v@[x] != id,
        decreases k - i,
    {
        if v[i] == id {
            let ghost before = v@;
            v.remove(i);
            proof {
                let after = v@;
                assert(after =~= before.subrange(0, i as int) + before.skip(i as int + 1));
                assert forall|x: ClientId| after.contains(x) == (before.contains(x) && x != id) by {
                    lemma_remove_id(before, i as int, x, id);
                }
                assert forall|x: int, y: int| 0 <= x < y < after.len() implies after[x] != after[y]
                    by {
                    if y < i {
                    } else if x < i {
                        assert(after[y] == before[y + 1]);
                    } else {
                        assert(after[x] == before[x + 1] && after[y] == before[y + 1]);
                    }
                }
                assert(before.contains(id)) by {
                    assert(before[i as int] == id);
                }
            }
            return ;
        }
        i = i + 1;
    }
    proof {
        assert forall|x: ClientId| v@.contains(x) == (old(v)@.contains(x) && x != id) by {
            if v@.contains(id) {
                let w = choose|w: int| 0 <= w < v@.len() && v@[w] == id;
                assert(false);
            }
        }
    }
}

proof fn lemma_remove_id(v: Seq<ClientId>, i: int, x: ClientId, removed: ClientId)
    requires
        0 <= i < v.len(),
        v[i] == removed,
        unique_ids(v),
    ensures
        ({
            let after = v.subrange(0, i) + v.skip(i + 1);
            after.contains(x) == (v.contains(x) && x != removed)
        }),
{
    let after = v.subrange(0, i) + v.skip(i + 1);
    if after.contains(x) {
        let w = choose|w: int| 0 <= w < after.len() && after[w] == x;
        if w < i {
            assert(v[w] == x);
        } else {
            assert(after[w] == v[w + 1]);
        }
    }
    if v.contains(x) && x != removed {
        let w = choose|w: int| 0 <= w < v.len() && v[w] == x;
        if w < i {
            assert(after[w] == x);
        } else {
            assert(w > i);
            assert(after[w - 1] == v[w]);
        }
    }
}

/// Two mode records carry the same fields.
pub open spec fn modes_like(a: ChannelModes, b: ChannelModes) -> bool {
    &&& a.invite_only == b.invite_only
    &&& a.moderated == b.moderated
    &&& a.no_external_msgs == b.no_external_msgs
    &&& a.private == b.private
    &&& a.secret == b.secret
    &&& a.topic_lock == b.topic_lock
    &&& a.key == b.key
    &&& a.user_limit == b.user_limit
    &&& a.ban_list@ == b.ban_list@
    &&& a.except_list@ == b.except_list@
    &&& a.invite_exceptions@ == b.invite_exceptions@
}

/// Two channel records carry the same fields.
pub open spec fn channel_like(a: IrcChannel, b: IrcChannel) -> bool {
    &&& a.name == b.name
    &&& a.kind == b.kind
    &&& a.topic == b.topic
    &&& a.topic_set_by == b.topic_set_by
    &&& a.topic_set_at == b.topic_set_at
    &&& a.members@ == b.members@
    &&& a.operators@ == b.operators@
    &&& a.voiced@ == b.voiced@
    &&& modes_like(a.modes, b.modes)
}

/// Copies a list of connection ids.
pub(crate) fn clone_id_vec(v: &Vec<ClientId>) -> (r: Vec<ClientId>)
    ensures
        r@ == v@,
{
    let k = v.len();
    let mut out: Vec<ClientId> = Vec::new();
    let mut i: usize = 0;
    while i < k
        invariant
            0 <= i <= k,
            k == v@.len(),
            out@.len() == i,
            forall|x: int| 0 <= x < i ==> out@[x] == v@[x],
        decreases k - i,
    {
        out.push(v[i]);
        i = i + 1;
    }
    proof {
        assert(out@ =~= v@);
    }
    out
}

/// A channel: its name, topic, membership and privilege sets, and modes.
#[derive(Debug, Clone)]
pub struct IrcChannel {
    pub name: ChannelName,
    pub kind: ChannelType,
    pub topic: Option<Topic>,
    pub topic_set_by: Option<ClientId>,
    pub topic_set_at: Option<u64>,
    pub members: Vec<ClientId>,
    pub operators: Vec<ClientId>,
    pub voiced: Vec<ClientId>,
    pub modes: ChannelModes,
}

impl IrcChannel {
    /// `id` is a member.
    pub open spec fn has_member(self, id: ClientId) -> bool {
        self.members@.contains(id)
    }

    /// `id` holds operator privilege.
    pub open spec fn has_operator(self, id: ClientId) -> bool {
        self.operators@.contains(id)
    }

    /// Lists hold no duplicates, and privileges belong to members only.
    pub open spec fn wf(self) -> bool {
        &&& unique_ids(self.members@)
        &&& unique_ids(self.operators@)
        &&& unique_ids(self.voiced@)
        &&& unique_ids(self.modes.ban_list@)
        &&& unique_ids(self.modes.except_list@)
        &&& unique_ids(self.modes.invite_exceptions@)
        &&& forall|i: int|
            0 <= i < self.operators@.len() ==> self.members@.contains(#[trigger] self.operators@[i])
        &&& forall|i: int|
            0 <= i < self.voiced@.len() ==> self.members@.contains(#[trigger] self.voiced@[i])
    }

    /// A fresh channel of the network kind, without members.
    pub fn new(name: ChannelName) -> (r: IrcChannel)
        ensures
            r.name == name,
            r.kind == ChannelType::Network,
            r.topic is None,
            r.topic_set_by is None,
            r.topic_set_at is None,
            r.members@.len() == 0,
            r.operators@.len() == 0,
            r.voiced@.len() == 0,
            r.modes.is_fresh(),
            r.wf(),
    {
        IrcChannel {
            name,
            kind: ChannelType::Network,
            topic: None,
            topic_set_by: None,
            topic_set_at: None,
            members: Vec::new(),
            operators: Vec::new(),
            voiced: Vec::new(),
            modes: ChannelModes::new(),
        }
    }

    /// An element-wise copy of the channel.
    pub fn clone_channel(&self) -> (r: IrcChannel)
        ensures
            channel_like(r, *self),
    {
        IrcChannel {
            name: ChannelName(self.name.0.clone()),
            kind: self.kind,
            topic: match &self.topic {
                Some(t) => Some(Topic(t.0.clone())),
                None => None,
            },
            topic_set_by: self.topic_set_by,
            topic_set_at: self.topic_set_at,
            members: clone_id_vec(&self.members),
            operators: clone_id_vec(&self.operators),
            voiced: clone_id_vec(&self.voiced),
            modes: ChannelModes {
                invite_only: self.modes.invite_only,
                moderated: self.modes.moderated,
                no_external_msgs: self.modes.no_external_msgs,
                private: self.modes.private,
                secret: self.modes.secret,
                topic_lock: self.modes.topic_lock,
                key: crate::user_state::clone_opt_string(&self.modes.key),
                user_limit: self.modes.user_limit,
                ban_list: clone_id_vec(&self.modes.ban_list),
                except_list: clone_id_vec(&self.modes.except_list),
                invite_exceptions: clone_id_vec(&self.modes.invite_exceptions),
            },
        }
    }

    /// Adds a member; the result says whether the membership is new.
    pub fn add_member(&mut self, client_id: ClientId) -> (r: bool)
        requires
            old(self).wf(),
        ensures
            final(self).wf(),
            r == !old(self).has_member(client_id),
            r ==> final(self).members@ == old(self).members@.push(client_id),
            !r ==> final(self).members@ == old(self).members@,
            final(self).has_member(client_id),
            final(self).name == old(self).name,
            final(self).kind == old(self).kind,
            final(self).topic == old(self).topic,
            final(self).topic_set_by == old(self).topic_set_by,
            final(self).topic_set_at == old(self).topic_set_at,
            final(self).operators == old(self).operators,
            final(self).voiced == old(self).voiced,
            final(self).modes == old(self).modes,
    {
        if id_vec_contains(&self.members, client_id) {
            return false;
        }
        self.members.push(client_id);
        proof {
            assert(self.members@.last() == client_id);
            assert(self.members@.contains(client_id));
            assert forall|i: int, j: int|
                0 <= i < j < self.members@.len() implies self.members@[i] != self.members@[j] by {
                if j < self.members@.len() - 1 {
                } else {
                    assert(old(self).members@.contains(old(self).members@[i]));
                }
            }
            assert forall|i: int|
                0 <= i < self.operators@.len() implies self.members@.contains(
                #[trigger] self.operators@[i],
            ) by {
                assert(old(self).members@.contains(self.operators@[i]));
                let w = choose|w: int|
                    0 <= w < old(self).members@.len() && old(self).members@[w]
                        == self.operators@[i];
                assert(self.members@[w] == self.operators@[i]);
            }
            assert forall|i: int|
                0 <= i < self.voiced@.len() implies self.members@.contains(
                #[trigger] self.voiced@[i],
            ) by {
                assert(old(self).members@.contains(self.voiced@[i]));
                let w = choose|w: int|
                    0 <= w < old(self).members@.len() && old(self).members@[w] == self.voiced@[i];
                assert(self.members@[w] == self.voiced@[i]);
            }
        }
        true
    }

    /// Removes a member together with its privileges.
    pub fn remove_member(&mut self, client_id: &ClientId)
        requires
            old(self).wf(),
        ensures
            final(self).wf(),
            forall|x: ClientId|
                final(self).members@.contains(x) == (old(self).members@.contains(x) && x
                    != *client_id),
            forall|x: ClientId|
                final(self).operators@.contains(x) == (old(self).operators@.contains(x) && x
                    != *client_id),
            forall|x: ClientId|
                final(self).voiced@.contains(x) == (old(self).voiced@.contains(x) && x
                    != *client_id),
            old(self).members@.contains(*client_id) ==> final(self).members@.len() == old(
                self,
            ).members@.len() - 1,
            !old(self).members@.contains(*client_id) ==> final(self).members@ == old(
                self,
            ).members@,
            final(self).name == old(self).name,
            final(self).kind == old(self).kind,
            final(self).topic == old(self).topic,
            final(self).topic_set_by == old(self).topic_set_by,
            final(self).topic_set_at == old(self).topic_set_at,
            final(self).modes == old(self).modes,
    {
        id_vec_remove(&mut self.members, *client_id);
        id_vec_remove(&mut self.operators, *client_id);
        id_vec_remove(&mut self.voiced, *client_id);
        proof {
            assert forall|i: int|
                0 <= i < self.operators@.len() implies self.members@.contains(
                #[trigger] self.operators@[i],
            ) by {
                let x = self.operators@[i];
                assert(self.operators@.contains(x));
                assert(old(self).operators@.contains(x) && x != *client_id);
                assert(old(self).members@.contains(x));
            }
            assert forall|i: int|
                0 <= i < self.voiced@.len() implies self.members@.contains(
                #[trigger] self.voiced@[i],
            ) by {
                let x = self.voiced@[i];
                assert(self.voiced@.contains(x));
                assert(old(self).voiced@.contains(x) && x != *client_id);
                assert(old(self).members@.contains(x));
            }
        }
    }

    /// Grants operator privilege to a member; the result says whether it
    /// is new.
    pub fn add_operator(&mut self, client_id: ClientId) -> (r: bool)
        requires
            old(self).wf(),
            old(self).has_member(client_id),
        ensures
            final(self).wf(),
            r == !old(self).has_operator(client_id),
            r ==> final(self).operators@ == old(self).operators@.push(client_id),
            !r ==> final(self).operators@ == old(self).operators@,
            final(self).has_operator(client_id),
            final(self).members == old(self).members,
            final(self).name == old(self).name,
            final(self).kind == old(self).kind,
            final(self).topic == old(self).topic,
            final(self).topic_set_by == old(self).topic_set_by,
            final(self).topic_set_at == old(self).topic_set_at,
            final(self).voiced == old(self).voiced,
            final(self).modes == old(self).modes,
    {
        if id_vec_contains(&self.operators, client_id) {
            return false;
        }
        self.operators.push(client_id);
        proof {
            assert(self.operators@.last() == client_id);
            assert(self.operators@.contains(client_id));
            assert forall|i: int, j: int|
                0 <= i < j < self.operators@.len() implies self.operators@[i]
                != self.operators@[j] by {
                if j < self.operators@.len() - 1 {
                } else {
                    assert(old(self).operators@.contains(old(self).operators@[i]));
                }
            }
            assert forall|i: int|
                0 <= i < self.operators@.len() implies self.members@.contains(
                #[trigger] self.operators@[i],
            ) by {
                if i < self.operators@.len() - 1 {
                    assert(old(self).operators@[i] == self.operators@[i]);
                }
            }
        }
        true
    }

    /// Whether `client_id` stands on the ban list.
    pub fn is_banned(&self, client_id: ClientId) -> (r: bool)
        ensures
            r == self.modes.ban_list@.contains(client_id),
    {
        id_vec_contains(&self.modes.ban_list, client_id)
    }

    /// Puts `client_id` on the ban list; the result says whether it is new.
    pub fn add_ban_user(&mut self, client_id: ClientId) -> (r: bool)
        requires
            old(self).wf(),
        ensures
            final(self).wf(),
            r == !old(self).modes.ban_list@.contains(client_id),
            final(self).modes.ban_list@.contains(client_id),
            r ==> final(self).modes.ban_list@ == old(self).modes.ban_list@.push(client_id),
            !r ==> *final(self) == *old(self),
    {
        if id_vec_contains(&self.modes.ban_list, client_id) {
            return false;
        }
        self.modes.ban_list.push(client_id);
        proof {
            assert(self.modes.ban_list@.last() == client_id);
            assert(self.modes.ban_list@.contains(client_id));
            assert forall|i: int, j: int|
                0 <= i < j < self.modes.ban_list@.len() implies self.modes.ban_list@[i]
                != self.modes.ban_list@[j] by {
                if j < self.modes.ban_list@.len() - 1 {
                } else {
                    assert(old(self).modes.ban_list@.contains(old(self).modes.ban_list@[i]));
                }
            }
        }
        true
    }
}

} // verus!
