//! Per-connection session state: identity, user modes, registration status
//! and the cached list of joined channels.

use vstd::prelude::*;

use crate::errors::InternalIrcError;
use crate::types::ChannelName;
use crate::ClientId;

verus! {

/// Where a session stands in its lifecycle.
#[derive(Debug, Clone, PartialEq)]
pub enum UserStatus {
    /// Connected, but the NICK/USER handshake is not complete.
    Handshaking,
    /// Registered and welcomed; commands take full effect.
    Active,
    /// A QUIT was issued or the socket is closing; the connection loop
    /// tears the session down.
    Leaving(Option<String>),
}

/// The user modes a session may carry.
#[derive(Debug, Clone, Copy, PartialEq, Eq, Structural)]
pub struct UserModes {
    pub away: bool,
    pub invisible: bool,
    pub wallops: bool,
    pub restricted: bool,
    pub oper: bool,
    pub local_oper: bool,
    pub server_notices: bool,
}

impl UserModes {
    /// The empty mode set a fresh session carries.
    pub open spec fn none_set() -> UserModes {
        UserModes {
            away: false,
            invisible: false,
            wallops: false,
            restricted: false,
            oper: false,
            local_oper: false,
            server_notices: false,
        }
    }
}

/// The mode letters the server knows: a, i, w, r, o, O, s.
pub open spec fn known_mode(c: char) -> bool {
    c == 'a' || c == 'i' || c == 'w' || c == 'r' || c == 'o' || c == 'O' || c == 's'
}

impl UserModes {
    /// Whether the mode letter `c` is set.
    pub open spec fn has(self, c: char) -> bool {
        if c == 'a' {
            self.away
        } else if c == 'i' {
            self.invisible
        } else if c == 'w' {
            self.wallops
        } else if c == 'r' {
            self.restricted
        } else if c == 'o' {
            self.oper
        } else if c == 'O' {
            self.local_oper
        } else if c == 's' {
            self.server_notices
        } else {
            false
        }
    }
}

/// `m` with the letter `c` turned on or off.
pub open spec fn set_mode(m: UserModes, c: char, on: bool) -> UserModes {
    if c == 'a' {
        UserModes { away: on, ..m }
    } else if c == 'i' {
        UserModes { invisible: on, ..m }
    } else if c == 'w' {
        UserModes { wallops: on, ..m }
    } else if c == 'r' {
        UserModes { restricted: on, ..m }
    } else if c == 'o' {
        UserModes { oper: on, ..m }
    } else if c == 'O' {
        UserModes { local_oper: on, ..m }
    } else if c == 's' {
        UserModes { server_notices: on, ..m }
    } else {
        m
    }
}

/// One signed mode letter applied: self-promotion (+o, +O) and
/// self-de-restriction (-r) are silently ignored.
pub open spec fn apply_one(m: UserModes, sign: char, c: char) -> UserModes {
    if sign == '+' && (c == 'o' || c == 'O') {
        m
    } else if sign == '-' && c == 'r' {
        m
    } else {
        set_mode(m, c, sign == '+')
    }
}

/// A run of letters under one sign, applied left to right.
pub open spec fn apply_flags(m: UserModes, sign: char, fl: Seq<char>) -> UserModes
    decreases fl.len(),
{
    if fl.len() == 0 {
        m
    } else {
        apply_flags(apply_one(m, sign, fl[0]), sign, fl.drop_first())
    }
}

/// All signed groups of a MODE command, applied left to right.
pub open spec fn apply_groups(m: UserModes, gs: Seq<(char, Seq<char>)>) -> UserModes
    decreases gs.len(),
{
    if gs.len() == 0 {
        m
    } else {
        apply_groups(apply_flags(m, gs[0].0, gs[0].1), gs.drop_first())
    }
}

/// Every group carries a proper sign and only known mode letters.
pub open spec fn groups_valid(gs: Seq<(char, Seq<char>)>) -> bool {
    forall|i: int|
        0 <= i < gs.len() ==> (((#[trigger] gs[i]).0 == '+' || gs[i].0 == '-') && (forall|j: int|
            0 <= j < gs[i].1.len() ==> known_mode(#[trigger] gs[i].1[j])))
}

/// The specification view of an executable group list.
pub open spec fn groups_view(gs: Seq<(char, Vec<char>)>) -> Seq<(char, Seq<char>)> {
    gs.map_values(|p: (char, Vec<char>)| (p.0, p.1@))
}

/// The reasons a user MODE command is answered with an error numeric.
#[derive(Debug, Clone, Copy, PartialEq, Eq, Structural)]
pub enum UserModeFailure {
    /// A letter outside the known set: 501.
    UnknownFlag,
    /// The target nickname is another user's: 502.
    UsersDontMatch,
}

/// The per-connection record.
#[derive(Debug, Clone)]
pub struct User {
    pub user_id: ClientId,
    pub nick: Option<String>,
    pub user: Option<String>,
    pub modes: UserModes,
    pub full_user_name: Option<String>,
    pub registered: bool,
    pub host: String,
    pub member_of: Vec<String>,
}

/// No channel name stands twice in a membership list.
pub open spec fn unique_strings(v: Seq<String>) -> bool {
    forall|i: int, j: int| 0 <= i < j < v.len() ==> (#[trigger] v[i])@ != (#[trigger] v[j])@
}

impl User {
    /// The session lists the channel called `name`.
    pub open spec fn lists_channel(self, name: Seq<char>) -> bool {
        exists|i: int| 0 <= i < self.member_of@.len() && (#[trigger] self.member_of@[i])@ == name
    }

    /// Identity fields that joins and parts leave untouched.
    pub open spec fn identity(self) -> (ClientId, Option<String>, Option<String>, UserModes, Option<String>, bool, String) {
        (self.user_id, self.nick, self.user, self.modes, self.full_user_name, self.registered, self.host)
    }

    pub fn new(user_id: ClientId, host: String) -> (r: User)
        ensures
            r.user_id == user_id,
            r.nick is None,
            r.user is None,
            r.modes == UserModes::none_set(),
            r.full_user_name is None,
            r.registered == false,
            r.host == host,
            r.member_of@.len() == 0,
    {
        User {
            user_id,
            nick: None,
            user: None,
            modes: UserModes {
                away: false,
                invisible: false,
                wallops: false,
                restricted: false,
                oper: false,
                local_oper: false,
                server_notices: false,
            },
            full_user_name: None,
            registered: false,
            host,
            member_of: Vec::new(),
        }
    }
}

/// Two session records carry the same fields.
pub open spec fn user_like(a: User, b: User) -> bool {
    &&& a.user_id == b.user_id
    &&& a.nick == b.nick
    &&& a.user == b.user
    &&& a.modes == b.modes
    &&& a.full_user_name == b.full_user_name
    &&& a.registered == b.registered
    &&& a.host == b.host
    &&& a.member_of@ == b.member_of@
}

/// Copies a list of names element by element.
pub(crate) fn clone_string_vec(v: &Vec<String>) -> (r: Vec<String>)
    ensures
        r@ == v@,
{
    let k = v.len();
    let mut out: Vec<String> = Vec::new();
    let mut i: usize = 0;
    while i < k
        invariant
            0 <= i <= k,
            k == v@.len(),
            out@.len() == i,
            forall|x: int| 0 <= x < i ==> out@[x] == v@[x],
        decreases k - i,
    {
        out.push(v[i].clone());
        i = i + 1;
    }
    proof {
        assert(out@ =~= v@);
    }
    out
}

/// Copies an optional string.
pub(crate) fn clone_opt_string(o: &Option<String>) -> (r: Option<String>)
    ensures
        r == *o,
{
    match o {
        Some(s) => Some(s.clone()),
        None => None,
    }
}

/// A consistent copy of a session's fields, taken for formatting after the
/// handler releases the session.
#[derive(Debug, Clone)]
pub struct UserSnapshot {
    pub user_id: ClientId,
    pub nick: Option<String>,
    pub user: Option<String>,
    pub modes: UserModes,
    pub full_user_name: Option<String>,
    pub registered: bool,
    pub host: String,
    pub member_of: Vec<String>,
}

/// A session and the operations the handlers perform on it.
#[derive(Debug, Clone)]
pub struct UserState {
    pub user: User,
}

impl UserState {
    pub fn new(user_id: ClientId, host: String) -> (r: UserState)
        ensures
            r.user.user_id == user_id,
            r.user.nick is None,
            r.user.user is None,
            r.user.modes == UserModes::none_set(),
            r.user.full_user_name is None,
            r.user.registered == false,
            r.user.host == host,
            r.user.member_of@.len() == 0,
    {
        UserState { user: User::new(user_id, host) }
    }

    /// Sets the nickname and hands back the one it replaces.
    pub fn with_nick(&mut self, nick: String) -> (r: Option<String>)
        ensures
            r == old(self).user.nick,
            final(self).user == (User { nick: Some(nick), ..old(self).user }),
    {
        let old_nick = self.user.nick.take();
        self.user.nick = Some(nick);
        old_nick
    }

    /// Stores the USER parameters, decoding the mode bitmask: bit 2 sets
    /// mode w, bit 3 sets mode i.
    pub fn with_user(&mut self, user: String, full_user_name: String, mode: u8) -> (r: ())
        ensures
            final(self).user == (User {
                user: Some(user),
                full_user_name: Some(full_user_name),
                modes: UserState::parsed_basic_user_mode(mode),
                ..old(self).user
            }),
    {
        self.user.modes = UserState::parse_basic_user_mode(mode);
        self.user.user = Some(user);
        self.user.full_user_name = Some(full_user_name);
    }

    /// The modes the USER bitmask encodes.
    pub open spec fn parsed_basic_user_mode(mode: u8) -> UserModes {
        UserModes {
            away: false,
            invisible: (mode & 8) != 0,
            wallops: (mode & 4) != 0,
            restricted: false,
            oper: false,
            local_oper: false,
            server_notices: false,
        }
    }

    fn parse_basic_user_mode(mode: u8) -> (r: UserModes)
        ensures
            r == UserState::parsed_basic_user_mode(mode),
    {
        UserModes {
            away: false,
            invisible: (mode & 8) != 0,
            wallops: (mode & 4) != 0,
            restricted: false,
            oper: false,
            local_oper: false,
            server_notices: false,
        }
    }

    /// A session is registered once both its nickname and username are
    /// known; the first query after that point records the fact.
    pub fn is_registered(&mut self) -> (r: bool)
        ensures
            r == (old(self).user.registered || (old(self).user.nick is Some
                && old(self).user.user is Some)),
            final(self).user == (User { registered: r, ..old(self).user }),
    {
        if self.user.registered {
            return true;
        }
        if self.user.nick.is_some() && self.user.user.is_some() {
            self.user.registered = true;
            return true;
        }
        false
    }

    /// An element-wise copy of the session.
    pub fn clone_state(&self) -> (r: UserState)
        ensures
            user_like(r.user, self.user),
    {
        UserState {
            user: User {
                user_id: self.user.user_id,
                nick: clone_opt_string(&self.user.nick),
                user: clone_opt_string(&self.user.user),
                modes: self.user.modes,
                full_user_name: clone_opt_string(&self.user.full_user_name),
                registered: self.user.registered,
                host: self.user.host.clone(),
                member_of: clone_string_vec(&self.user.member_of),
            },
        }
    }

    pub fn get_user_id(&self) -> (r: ClientId)
        ensures
            r == self.user.user_id,
    {
        self.user.user_id
    }

    /// A consistent copy of every field.
    pub fn get_caracs(&self) -> (r: UserSnapshot)
        ensures
            r.user_id == self.user.user_id,
            r.nick == self.user.nick,
            r.user == self.user.user,
            r.modes == self.user.modes,
            r.full_user_name == self.user.full_user_name,
            r.registered == self.user.registered,
            r.host == self.user.host,
            r.member_of@ == self.user.member_of@,
    {
        UserSnapshot {
            user_id: self.user.user_id,
            nick: self.user.nick.clone(),
            user: self.user.user.clone(),
            modes: self.user.modes,
            full_user_name: self.user.full_user_name.clone(),
            registered: self.user.registered,
            host: self.user.host.clone(),
            member_of: self.user.member_of.clone(),
        }
    }

    /// Applies a user MODE change: unknown letters are refused with the
    /// matching failure, another user's nickname likewise, an unregistered
    /// session is an internal error, and otherwise the groups take effect
    /// in order with +o, +O and -r silently ignored.
    pub fn with_modes(&mut self, nick: &str, modes: Vec<(char, Vec<char>)>) -> (r: Result<
        Option<UserModeFailure>,
        InternalIrcError,
    >)
        ensures
            ({
                let gs = groups_view(modes@);
                if !groups_valid(gs) {
                    r == Ok::<Option<UserModeFailure>, InternalIrcError>(
                        Some(UserModeFailure::UnknownFlag),
                    ) && *final(self) == *old(self)
                } else if !old(self).user.registered {
                    (r matches Err(InternalIrcError::UserStateError(_))) && *final(self) == *old(
                        self,
                    )
                } else if !(old(self).user.nick matches Some(n) && n@ == nick@) {
                    r == Ok::<Option<UserModeFailure>, InternalIrcError>(
                        Some(UserModeFailure::UsersDontMatch),
                    ) && *final(self) == *old(self)
                } else {
                    r == Ok::<Option<UserModeFailure>, InternalIrcError>(None) && final(self).user
                        == (User { modes: apply_groups(old(self).user.modes, gs), ..old(self).user })
                }
            }),
    {
        let ghost gs = groups_view(modes@);
        let mut i: usize = 0;
        let k = modes.len();
        while i < k
            invariant
                0 <= i <= k,
                k == modes@.len(),
                gs == groups_view(modes@),
                forall|x: int|
                    0 <= x < i ==> (((#[trigger] gs[x]).0 == '+' || gs[x].0 == '-') && (forall|
                        j: int,
                    | 0 <= j < gs[x].1.len() ==> known_mode(#[trigger] gs[x].1[j]))),
            decreases k - i,
        {
            let sign = modes[i].0;
            proof {
                assert(gs[i as int] == (modes@[i as int].0, modes@[i as int].1@));
            }
            if sign != '+' && sign != '-' {
                return Ok(Some(UserModeFailure::UnknownFlag));
            }
            let fl = modes[i].1.len();
            let mut j: usize = 0;
            while j < fl
                invariant
                    0 <= j <= fl,
                    0 <= i < k,
                    k == modes@.len(),
                    gs == groups_view(modes@),
                    fl == modes@[i as int].1@.len(),
                    forall|y: int| 0 <= y < j ==> known_mode(#[trigger] gs[i as int].1[y]),
                decreases fl - j,
            {
                let c = modes[i].1[j];
                proof {
                    assert(gs[i as int] == (modes@[i as int].0, modes@[i as int].1@));
                    assert(gs[i as int].1[j as int] == c);
                }
                if !(c == 'a' || c == 'i' || c == 'w' || c == 'r' || c == 'o' || c == 'O' || c
                    == 's') {
                    return Ok(Some(UserModeFailure::UnknownFlag));
                }
                j = j + 1;
            }
            i = i + 1;
        }
        if !self.user.registered {
            return Err(InternalIrcError::UserStateError("cannot change modes of an unregistered user"));
        }
        let nick_owned = nick.to_owned();
        let nick_matches = match &self.user.nick {
            Some(n) => *n == nick_owned,
            None => false,
        };
        if !nick_matches {
            return Ok(Some(UserModeFailure::UsersDontMatch));
        }
        let mut m = self.user.modes;
        proof {
            assert(gs.skip(0) =~= gs);
        }
        let mut i2: usize = 0;
        while i2 < k
            invariant
                0 <= i2 <= k,
                k == modes@.len(),
                gs == groups_view(modes@),
                apply_groups(old(self).user.modes, gs) == apply_groups(m, gs.skip(i2 as int)),
                self == old(self),
            decreases k - i2,
        {
            let sign = modes[i2].0;
            let fl = modes[i2].1.len();
            let ghost m0 = m;
            let mut j2: usize = 0;
            proof {
                assert(gs[i2 as int] == (modes@[i2 as int].0, modes@[i2 as int].1@));
                assert(gs.skip(i2 as int)[0] == gs[i2 as int]);
                assert(gs.skip(i2 as int).drop_first() =~= gs.skip(i2 as int + 1));
                assert(gs[i2 as int].1.skip(0) =~= gs[i2 as int].1);
            }
            while j2 < fl
                invariant
                    0 <= j2 <= fl,
                    0 <= i2 < k,
                    k == modes@.len(),
                    gs == groups_view(modes@),
                    gs[i2 as int] == (modes@[i2 as int].0, modes@[i2 as int].1@),
                    sign == gs[i2 as int].0,
                    fl == gs[i2 as int].1.len(),
                    apply_flags(m0, sign, gs[i2 as int].1) == apply_flags(
                        m,
                        sign,
                        gs[i2 as int].1.skip(j2 as int),
                    ),
                decreases fl - j2,
            {
                let c = modes[i2].1[j2];
                proof {
                    assert(gs[i2 as int].1.skip(j2 as int)[0] == gs[i2 as int].1[j2 as int]);
                    assert(gs[i2 as int].1.skip(j2 as int).drop_first() =~= gs[i2 as int].1.skip(
                        j2 as int + 1,
                    ));
                }
                if sign == '+' && (c == 'o' || c == 'O') {
                } else if sign == '-' && c == 'r' {
                } else {
                    m = apply_set_mode(m, c, sign == '+');
                }
                j2 = j2 + 1;
            }
            proof {
                assert(gs[i2 as int].1.skip(fl as int) =~= Seq::<char>::empty());
            }
            i2 = i2 + 1;
        }
        proof {
            assert(gs.skip(k as int) =~= Seq::<(char, Seq<char>)>::empty());
        }
        self.user.modes = m;
        Ok(None)
    }

    /// Records membership of a channel; joining twice leaves the list as
    /// it stands.
    pub fn join_channel(&mut self, channel_name: &ChannelName)
        ensures
            final(self).user.identity() == old(self).user.identity(),
            old(self).user.lists_channel(channel_name@) ==> final(self).user.member_of@ == old(
                self,
            ).user.member_of@,
            !old(self).user.lists_channel(channel_name@) ==> final(self).user.member_of@ == old(
                self,
            ).user.member_of@.push(channel_name.0),
    {
        let k = self.user.member_of.len();
        let mut i: usize = 0;
        while i < k
            invariant
                0 <= i <= k,
                k == self.user.member_of@.len(),
                self == old(self),
                forall|x: int|
                    0 <= x < i ==> (#[trigger] self.user.member_of@[x])@ != channel_name@,
            decreases k - i,
        {
            if self.user.member_of[i] == channel_name.0 {
                return ;
            }
            i = i + 1;
        }
        self.user.member_of.push(channel_name.0.clone());
    }

    /// Forgets membership of a channel.
    pub fn left_channel(&mut self, channel_name: &ChannelName)
        ensures
            final(self).user.identity() == old(self).user.identity(),
            unique_strings(old(self).user.member_of@) ==> {
                &&& unique_strings(final(self).user.member_of@)
                &&& forall|n: Seq<char>|
                    final(self).user.lists_channel(n) == (old(self).user.lists_channel(n) && n
                        != channel_name@)
            },
            old(self).user.lists_channel(channel_name@) ==> final(self).user.member_of@.len()
                == old(self).user.member_of@.len() - 1,
            !old(self).user.lists_channel(channel_name@) ==> final(self).user.member_of@ == old(
                self,
            ).user.member_of@,
    {
        let k = self.user.member_of.len();
        let mut i: usize = 0;
        while i < k
            invariant
                0 <= i <= k,
                k == self.user.member_of@.len(),
                self == old(self),
                forall|x: int|
                    0 <= x < i ==> (#[trigger] self.user.member_of@[x])@ != channel_name@,
            decreases k - i,
        {
            if self.user.member_of[i] == channel_name.0 {
                let ghost before = self.user.member_of@;
                self.user.member_of.remove(i);
                proof {
                    let after = self.user.member_of@;
                    assert(after =~= before.subrange(0, i as int) + before.skip(i as int + 1));
                    if unique_strings(before) {
                        assert forall|n: Seq<char>|
                            self.user.lists_channel(n) == (old(self).user.lists_channel(n) && n
                                != channel_name@) by {
                            lemma_remove_membership(before, i as int, n, channel_name@);
                        }
                        assert forall|x: int, y: int|
                            0 <= x < y < after.len() implies (#[trigger] after[x])@ != (
                        #[trigger] after[y])@ by {
                            if y < i {
                                assert(after[x] == before[x] && after[y] == before[y]);
                            } else if x < i {
                                assert(after[x] == before[x] && after[y] == before[y + 1]);
                            } else {
                                assert(after[x] == before[x + 1] && after[y] == before[y + 1]);
                            }
                        }
                    }
                }
                return ;
            }
            i = i + 1;
        }
    }
}

fn apply_set_mode(m: UserModes, c: char, on: bool) -> (r: UserModes)
    ensures
        r == set_mode(m, c, on),
{
    if c == 'a' {
        UserModes { away: on, ..m }
    } else if c == 'i' {
        UserModes { invisible: on, ..m }
    } else if c == 'w' {
        UserModes { wallops: on, ..m }
    } else if c == 'r' {
        UserModes { restricted: on, ..m }
    } else if c == 'o' {
        UserModes { oper: on, ..m }
    } else if c == 'O' {
        UserModes { local_oper: on, ..m }
    } else if c == 's' {
        UserModes { server_notices: on, ..m }
    } else {
        m
    }
}

proof fn lemma_remove_membership(v: Seq<String>, i: int, n: Seq<char>, removed: Seq<char>)
    requires
        0 <= i < v.len(),
        v[i]@ == removed,
        unique_strings(v),
    ensures
        ({
            let after = v.subrange(0, i) + v.skip(i + 1);
            (exists|x: int| 0 <= x < after.len() && (#[trigger] after[x])@ == n) == ((exists|x: int|
                0 <= x < v.len() && (#[trigger] v[x])@ == n) && n != removed)
        }),
{
    let after = v.subrange(0, i) + v.skip(i + 1);
    if exists|x: int| 0 <= x < after.len() && (#[trigger] after[x])@ == n {
        let x = choose|x: int| 0 <= x < after.len() && (#[trigger] after[x])@ == n;
        if x < i {
            assert(v[x]@ == n);
            assert(n != removed);
        } else {
            assert(after[x] == v[x + 1]);
            assert(v[x + 1]@ == n);
            assert(n != removed);
        }
    }
    if (exists|x: int| 0 <= x < v.len() && (#[trigger] v[x])@ == n) && n != removed {
        let x = choose|x: int| 0 <= x < v.len() && (#[trigger] v[x])@ == n;
        if x < i {
            assert(after[x]@ == n);
        } else {
            assert(x > i);
            assert(after[x - 1] == v[x]);
            assert(after[x - 1]@ == n);
        }
    }
}

} // verus!
