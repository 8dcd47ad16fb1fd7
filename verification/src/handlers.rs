//! Command handlers: each one takes a parsed command, the issuing
//! connection and the registry, and hands back the next session status
//! together with the outbound messages the connection loops must perform.

use vstd::prelude::*;

use crate::channels_models::{IrcChannel, IrcChannelOperationStatus};
use crate::errors::InternalIrcError;
use crate::message_models::{DirectIrcMessage, Outbound};
use crate::replies::{IrcReply, MessageReply};
use crate::server_state::{RegistrationOutcome, ServerState};
use crate::types::{ChannelName, MessageTo, Nickname, Username};
use crate::user_state::{UserModeFailure, UserStatus};
use crate::ClientId;

verus! {

/// The capability set this server announces; none is enabled.
pub fn get_capabilities() -> (r: String)
    ensures
        r@ == Seq::<char>::empty(),
{
    String::new()
}

/// A session is known and registered.
pub open spec fn session_registered(s: ServerState, id: ClientId) -> bool {
    s.has_user(id) && s.spec_user(id).registered
}

/// The nickname a reply displays for a session: its nickname once
/// registered, and "*" before that or when the session is unknown.
pub open spec fn display_nick_of(s: ServerState, id: ClientId) -> Seq<char> {
    if session_registered(s, id) && s.spec_user(id).nick is Some {
        s.spec_user(id).nick.unwrap()@
    } else {
        "*"@
    }
}

/// The nickname text of a session record, "*" where none is set.
pub open spec fn nick_text_of(u: crate::user_state::User) -> Seq<char> {
    if u.nick is Some {
        u.nick.unwrap()@
    } else {
        "*"@
    }
}

/// The username text of a session record, "*" where none is set.
pub open spec fn user_text_of(u: crate::user_state::User) -> Seq<char> {
    if u.user is Some {
        u.user.unwrap()@
    } else {
        "*"@
    }
}

/// The status a read-only reply leaves standing: Active once registered.
pub open spec fn standing_status(s: ServerState, id: ClientId) -> UserStatus {
    if session_registered(s, id) {
        UserStatus::Active
    } else {
        UserStatus::Handshaking
    }
}

/// `v` delivers the terminated `line` once to every session that shares a
/// channel of `names` in state `s`, the excluded one left out.
pub open spec fn relays_once_to_neighbors(
    s: ServerState,
    names: Seq<String>,
    excluded: ClientId,
    line: Seq<char>,
    v: Seq<Outbound>,
) -> bool {
    &&& forall|i: int|
        0 <= i < v.len() ==> ((#[trigger] v[i]) matches Outbound::Direct { to, message: m }
            && m.raw_line@ == crate::message_models::crlf_terminated(line))
    &&& forall|i: int, j: int|
        0 <= i < j < v.len() ==> (#[trigger] v[i]).direct_to() != (#[trigger] v[j]).direct_to()
    &&& forall|x: ClientId|
        (exists|i: int| 0 <= i < v.len() && (#[trigger] v[i]).direct_to() == Some(x)) == (
        crate::server_state::reaches(s, names, x) && x != excluded)
}

/// One delivery of the terminated `line` to `to`'s writer, without a
/// sender mark.
pub open spec fn is_direct_line(o: Outbound, to: ClientId, line: Seq<char>) -> bool {
    o matches Outbound::Direct { to: t, message: m } && t == to && m.sender is None
        && m.raw_line@ == crate::message_models::crlf_terminated(line)
}

/// The display nickname of a session: its nickname once registered, and
/// "*" before that.
fn display_nick(server_state: &ServerState, client_id: ClientId) -> (r: String)
    requires
        server_state.users_ok(),
    ensures
        r@ == display_nick_of(*server_state, client_id),
{
    match server_state.get_user_state_from_client_id(&client_id) {
        Some(u) => {
            if u.user.registered {
                match u.user.nick {
                    Some(n) => n,
                    None => {
                        let star = String::from_str("*");
                        star
                    },
                }
            } else {
                String::from_str("*")
            }
        },
        None => String::from_str("*"),
    }
}

/// CAP LS: answer with the capability set; the session status stands.
pub fn handle_cap_ls_response(
    client_id: ClientId,
    server_state: &ServerState,
    server_name: &str,
) -> (r: (UserStatus, Vec<Outbound>))
    requires
        server_state.wf(),
    ensures
        r.0 == standing_status(*server_state, client_id),
        r.1@.len() == 1,
        is_direct_line(
            r.1@[0],
            client_id,
            crate::replies::cap_ls_text(
                server_name@,
                display_nick_of(*server_state, client_id),
                Seq::<char>::empty(),
            ),
        ),
{
    let nick = Nickname(display_nick(server_state, client_id));
    let caps = get_capabilities();
    let reply = IrcReply::CapLs { nick: &nick, capabilities: caps.as_str() };
    let line = reply.format(server_name);
    let mut outs: Vec<Outbound> = Vec::new();
    outs.push(Outbound::Direct { to: client_id, message: DirectIrcMessage::new(line) });
    let registered = match server_state.get_user_state_from_client_id(&client_id) {
        Some(u) => u.user.registered,
        None => false,
    };
    if registered {
        (UserStatus::Active, outs)
    } else {
        (UserStatus::Handshaking, outs)
    }
}

/// CAP LIST: answer with the active capability set.
pub fn handle_cap_list_response(
    client_id: ClientId,
    server_state: &ServerState,
    server_name: &str,
) -> (r: (UserStatus, Vec<Outbound>))
    requires
        server_state.wf(),
    ensures
        r.0 == standing_status(*server_state, client_id),
        r.1@.len() == 1,
        is_direct_line(
            r.1@[0],
            client_id,
            crate::replies::cap_list_text(
                server_name@,
                display_nick_of(*server_state, client_id),
                Seq::<char>::empty(),
            ),
        ),
{
    let nick = Nickname(display_nick(server_state, client_id));
    let caps = get_capabilities();
    let reply = IrcReply::CapList { nick: &nick, capabilities: caps.as_str() };
    let line = reply.format(server_name);
    let mut outs: Vec<Outbound> = Vec::new();
    outs.push(Outbound::Direct { to: client_id, message: DirectIrcMessage::new(line) });
    let registered = match server_state.get_user_state_from_client_id(&client_id) {
        Some(u) => u.user.registered,
        None => false,
    };
    if registered {
        (UserStatus::Active, outs)
    } else {
        (UserStatus::Handshaking, outs)
    }
}

/// CAP END closes the negotiation without a reply.
pub fn handle_cap_end_response() -> (r: Result<UserStatus, InternalIrcError>)
    ensures
        r == Ok::<UserStatus, InternalIrcError>(UserStatus::Handshaking),
{
    Ok(UserStatus::Handshaking)
}

/// PING: answer at once with a PONG naming the first server parameter.
pub fn handle_ping(
    server: Vec<String>,
    client_id: ClientId,
    server_name: &str,
) -> (r: (UserStatus, Vec<Outbound>))
    requires
        server@.len() >= 1,
    ensures
        r.0 == UserStatus::Active,
        r.1@.len() == 1,
        is_direct_line(
            r.1@[0],
            client_id,
            crate::replies::pong_text(server_name@, server@[0]@),
        ),
{
    let reply = IrcReply::Pong { destination: server[0].as_str() };
    let line = reply.format(server_name);
    let mut outs: Vec<Outbound> = Vec::new();
    outs.push(Outbound::Direct { to: client_id, message: DirectIrcMessage::new(line) });
    (UserStatus::Active, outs)
}

/// NICK: refuse a taken nickname with 433; otherwise set it, relaying the
/// change to every neighbour when an active session renames itself, and
/// finishing registration when USER already arrived.
pub fn handle_nick_registration(
    nick: Nickname,
    client_id: ClientId,
    server_state: &mut ServerState,
    server_name: &str,
) -> (r: Result<(UserStatus, Vec<Outbound>), InternalIrcError>)
    requires
        old(server_state).wf(),
        old(server_state).has_user(client_id),
    ensures
        final(server_state).wf(),
        !(r matches Err(InternalIrcError::InvalidCommand)),
        final(server_state).channels == old(server_state).channels,
        final(server_state).ip_counts == old(server_state).ip_counts,
        final(server_state).next_user_id == old(server_state).next_user_id,
        ({
            let u = old(server_state).spec_user(client_id);
            let i = old(server_state).user_index(client_id);
            let renamed = old(server_state).users@.update(
                i,
                crate::user_state::UserState {
                    user: crate::user_state::User { nick: Some(nick.0), ..u },
                },
            );
            if old(server_state).nick_bound(nick@) {
                // the nickname belongs to another connection: 433 and the
                // old nickname is kept, the index untouched
                final(server_state).users@ == old(server_state).users@ && final(server_state).nick@
                    == old(server_state).nick@ && (r matches Ok(p) && p.0 == UserStatus::Active
                    && p.1@.len() == 1 && is_direct_line(
                    p.1@[0],
                    client_id,
                    crate::replies::err_nickname_in_use_text(
                        server_name@,
                        display_nick_of(*old(server_state), client_id),
                        nick@,
                    ),
                ))
            } else if u.registered {
                // a rename: the index entry moves with the session and the
                // NICK relay reaches every neighbour except the renamer
                final(server_state).users@ == renamed && (forall|n2: Seq<char>, x: ClientId|
                    final(server_state).nick_has(n2, x) == ((old(server_state).nick_has(n2, x)
                        && x != client_id) || (n2 == nick@ && x == client_id))) && (r matches Ok(
                    p,
                ) && p.0 == UserStatus::Active && {
                    let line = crate::replies::update_nick_text(
                        nick_text_of(u),
                        nick@,
                        user_text_of(u),
                        u.host@,
                    );
                    &&& forall|j: int|
                        0 <= j < p.1@.len() ==> ((#[trigger] p.1@[j]) matches Outbound::Direct {
                            to,
                            message: m,
                        } && m.sender is None && m.raw_line@
                            == crate::message_models::crlf_terminated(line))
                    &&& forall|a: int, b: int|
                        0 <= a < b < p.1@.len() ==> (#[trigger] p.1@[a]).direct_to() != (
                        #[trigger] p.1@[b]).direct_to()
                    &&& forall|x: ClientId|
                        (exists|j: int|
                            0 <= j < p.1@.len() && (#[trigger] p.1@[j]).direct_to() == Some(x))
                            == (crate::server_state::reaches(
                            *old(server_state),
                            u.member_of@,
                            x,
                        ) && x != client_id)
                })
            } else if u.user is Some {
                // NICK completed the handshake: register and welcome
                final(server_state).users@ == old(server_state).users@.update(
                    i,
                    crate::user_state::UserState {
                        user: crate::user_state::User {
                            nick: Some(nick.0),
                            registered: true,
                            ..u
                        },
                    },
                ) && final(server_state).nick@.len() == old(server_state).nick@.len() + 1
                    && final(server_state).nick@.drop_last() == old(server_state).nick@
                    && final(server_state).nick@.last().0@ == nick@
                    && final(server_state).nick@.last().1 == client_id && (r matches Ok(p) && p.0
                    == UserStatus::Active && p.1@.len() == 1 && is_direct_line(
                    p.1@[0],
                    client_id,
                    crate::replies::welcome_text(server_name@, nick@, u.user.unwrap()@, u.host@),
                ))
            } else {
                // the nickname is noted; USER is still missing
                final(server_state).users@ == renamed && final(server_state).nick@ == old(
                    server_state,
                ).nick@ && (r matches Ok(p) && p.0 == UserStatus::Handshaking && p.1@.len() == 0)
            }
        }),
{
    proof {
        let i = old(server_state).user_index(client_id);
        assert(old(server_state).users@[i].user.user_id == client_id);
    }
    let taken = match server_state.get_cliend_id_from_nick(&nick) {
        Some(_) => true,
        None => false,
    };
    if taken {
        // 433: the nickname stays with its holder.
        let asker = Nickname(display_nick(server_state, client_id));
        let reply = IrcReply::ErrNicknameInUse { nick: &asker, wanted: &nick };
        let line = reply.format(server_name);
        let mut outs: Vec<Outbound> = Vec::new();
        outs.push(Outbound::Direct { to: client_id, message: DirectIrcMessage::new(line) });
        return Ok((UserStatus::Active, outs));
    }
    let was_registered = match server_state.get_user_state_from_client_id(&client_id) {
        Some(u) => u.user.registered,
        None => false,
    };
    let old_nick = server_state.set_nick(client_id, nick.0.clone());
    let ghost mid = *server_state;
    proof {
        let i = old(server_state).user_index(client_id);
        assert(server_state.users@[i].user.user_id == client_id);
        server_state.lemma_user_index(i);
    }
    if was_registered {
        match old_nick {
            Some(prior) => {
                proof {
                    let u = old(server_state).spec_user(client_id);
                    assert(prior == u.nick.unwrap());
                }
                let r = update_nick(&Nickname(prior), &nick, client_id, server_state, server_name);
                proof {
                    let u = old(server_state).spec_user(client_id);
                    // the channel view did not move, so neighbourhood is
                    // judged the same before and after the rename
                    assert forall|x: ClientId|
                        crate::server_state::reaches(mid, u.member_of@, x)
                            == crate::server_state::reaches(
                            *old(server_state),
                            u.member_of@,
                            x,
                        ) by {
                        if crate::server_state::reaches(mid, u.member_of@, x) {
                            let k = choose|k: int|
                                0 <= k < u.member_of@.len() && mid.has_channel(
                                    (#[trigger] u.member_of@[k])@,
                                ) && mid.spec_channel(u.member_of@[k]@).members@.contains(x);
                            let w = mid.channel_index(u.member_of@[k]@);
                            assert(mid.channels@[w].name@ == u.member_of@[k]@);
                            assert(old(server_state).channels@[w].name@ == u.member_of@[k]@);
                            old(server_state).lemma_channel_index(w);
                            assert(old(server_state).spec_channel(
                                u.member_of@[k]@,
                            ).members@.contains(x));
                        }
                        if crate::server_state::reaches(*old(server_state), u.member_of@, x) {
                            let k = choose|k: int|
                                0 <= k < u.member_of@.len() && old(server_state).has_channel(
                                    (#[trigger] u.member_of@[k])@,
                                ) && old(server_state).spec_channel(
                                    u.member_of@[k]@,
                                ).members@.contains(x);
                            let w = old(server_state).channel_index(u.member_of@[k]@);
                            assert(old(server_state).channels@[w].name@ == u.member_of@[k]@);
                            assert(mid.channels@[w].name@ == u.member_of@[k]@);
                            mid.lemma_channel_index(w);
                            assert(mid.spec_channel(u.member_of@[k]@).members@.contains(x));
                        }
                    }
                }
                proof {
                    let u = old(server_state).spec_user(client_id);
                    let i = old(server_state).user_index(client_id);
                    assert(server_state.channels == old(server_state).channels);
                    assert(server_state.users@ == old(server_state).users@.update(
                        i,
                        crate::user_state::UserState {
                            user: crate::user_state::User { nick: Some(nick.0), ..u },
                        },
                    ));
                    assert(forall|n2: Seq<char>, x: ClientId|
                        server_state.nick_has(n2, x) == ((old(server_state).nick_has(n2, x) && x
                            != client_id) || (n2 == nick@ && x == client_id)));
                    assert(r matches Ok(p) && p.0 == UserStatus::Active);
                    assert(mid.spec_user(client_id).host == u.host);
                    assert(user_text_of(mid.spec_user(client_id)) == user_text_of(u));
                    assert(mid.spec_user(client_id).member_of@ == u.member_of@);
                    assert(prior@ == nick_text_of(u));
                    let line2 = crate::replies::update_nick_text(
                        nick_text_of(u),
                        nick@,
                        user_text_of(u),
                        u.host@,
                    );
                    match &r {
                        Ok(p) => {
                        assert(forall|j: int|
                            0 <= j < p.1@.len() ==> ((#[trigger] p.1@[j]) matches
                                Outbound::Direct { to, message: m } && m.sender is None
                                && m.raw_line@ == crate::message_models::crlf_terminated(line2)));
                        assert(forall|a: int, b: int|
                            0 <= a < b < p.1@.len() ==> (#[trigger] p.1@[a]).direct_to() != (
                            #[trigger] p.1@[b]).direct_to());
                        assert forall|x: ClientId|
                            (exists|j: int|
                                0 <= j < p.1@.len() && (#[trigger] p.1@[j]).direct_to() == Some(
                                    x,
                                )) == (crate::server_state::reaches(
                            *old(server_state),
                            u.member_of@,
                            x,
                        ) && x != client_id) by {
                            assert(mid.spec_user(client_id).member_of@ == u.member_of@);
                            assert(crate::server_state::reaches(
                                mid,
                                mid.spec_user(client_id).member_of@,
                                x,
                            ) == crate::server_state::reaches(mid, u.member_of@, x));
                            assert(crate::server_state::reaches(mid, u.member_of@, x)
                                == crate::server_state::reaches(
                                *old(server_state),
                                u.member_of@,
                                x,
                            ));
                        }
                        },
                        _ => {},
                    }
                }
                return r;
            },
            None => {
                proof {
                    let i = old(server_state).user_index(client_id);
                    assert(old(server_state).users@[i].user.registered);
                    assert(old(server_state).users@[i].user.nick matches Some(_));
                    assert(false);
                }
            },
        }
        return Ok((UserStatus::Active, Vec::new()));
    }
    proof {
        assert(server_state.has_user(client_id));
    }
    when_registered(client_id, server_state, server_name)
}

/// An active session renamed itself: relay the NICK change to every
/// neighbour, the issuer included.
pub fn update_nick(
    old_nick: &Nickname,
    new_nick: &Nickname,
    client_id: ClientId,
    server_state: &mut ServerState,
    server_name: &str,
) -> (r: Result<(UserStatus, Vec<Outbound>), InternalIrcError>)
    requires
        old(server_state).wf(),
    ensures
        final(server_state).wf(),
        *final(server_state) == *old(server_state),
        !(r matches Err(InternalIrcError::InvalidCommand)),
        !old(server_state).has_user(client_id) ==> (r matches Ok(p) && p.0 == UserStatus::Active
            && p.1@.len() == 0),
        old(server_state).has_user(client_id) ==> (r matches Ok(p) && p.0 == UserStatus::Active
            && {
            let u = old(server_state).spec_user(client_id);
            let line = crate::replies::update_nick_text(
                old_nick@,
                new_nick@,
                user_text_of(u),
                u.host@,
            );
            &&& forall|j: int|
                0 <= j < p.1@.len() ==> ((#[trigger] p.1@[j]) matches Outbound::Direct {
                    to,
                    message: m,
                } && m.sender is None && m.raw_line@ == crate::message_models::crlf_terminated(
                    line,
                ))
            &&& forall|a: int, b: int|
                0 <= a < b < p.1@.len() ==> (#[trigger] p.1@[a]).direct_to() != (
                #[trigger] p.1@[b]).direct_to()
            &&& forall|x: ClientId|
                (exists|j: int|
                    0 <= j < p.1@.len() && (#[trigger] p.1@[j]).direct_to() == Some(x)) == (
                crate::server_state::reaches(*old(server_state), u.member_of@, x) && x
                    != client_id)
        }),
{
    let snap = match server_state.get_user_state_from_client_id(&client_id) {
        Some(u) => u,
        None => {
            return Ok((UserStatus::Active, Vec::new()));
        },
    };
    let user = match snap.user.user {
        Some(u) => Username(u),
        None => Username(String::from_str("*")),
    };
    let relay = MessageReply::UpdateNick {
        old_nick,
        new_nick,
        user: &user,
        host: snap.user.host.as_str(),
    };
    let line = relay.format();
    let msg = DirectIrcMessage::new(line);
    let outs = server_state.broadcast_to_neighbors(&snap.user.member_of, msg, Some(client_id));
    Ok((UserStatus::Active, outs))
}

/// USER: store the identity and finish registration when NICK already
/// arrived.
pub fn handle_user_registration(
    user_name: Username,
    mode: u8,
    real_name: crate::types::Realname,
    client_id: ClientId,
    server_state: &mut ServerState,
    server_name: &str,
) -> (r: Result<(UserStatus, Vec<Outbound>), InternalIrcError>)
    requires
        old(server_state).wf(),
        old(server_state).has_user(client_id),
    ensures
        final(server_state).wf(),
        !(r matches Err(InternalIrcError::InvalidCommand)),
        final(server_state).channels == old(server_state).channels,
        final(server_state).ip_counts == old(server_state).ip_counts,
        final(server_state).next_user_id == old(server_state).next_user_id,
        ({
            let u = old(server_state).spec_user(client_id);
            let i = old(server_state).user_index(client_id);
            let u2 = crate::user_state::User {
                user: Some(user_name.0),
                full_user_name: Some(real_name.0),
                modes: crate::user_state::UserState::parsed_basic_user_mode(mode),
                ..u
            };
            let stored = old(server_state).users@.update(
                i,
                crate::user_state::UserState { user: u2 },
            );
            if u.registered {
                final(server_state).users@ == stored && final(server_state).nick@ == old(
                    server_state,
                ).nick@ && (r matches Ok(p) && p.0 == UserStatus::Active && p.1@.len() == 1
                    && is_direct_line(
                    p.1@[0],
                    client_id,
                    crate::replies::welcome_text(
                        server_name@,
                        nick_text_of(u2),
                        user_name.0@,
                        u.host@,
                    ),
                ))
            } else if u.nick is None {
                final(server_state).users@ == stored && final(server_state).nick@ == old(
                    server_state,
                ).nick@ && (r matches Ok(p) && p.0 == UserStatus::Handshaking && p.1@.len() == 0)
            } else if old(server_state).nick_bound(u.nick.unwrap()@) {
                final(server_state).users@ == stored && final(server_state).nick@ == old(
                    server_state,
                ).nick@ && (r matches Ok(p) && p.0 == UserStatus::Handshaking && p.1@.len() == 1
                    && is_direct_line(
                    p.1@[0],
                    client_id,
                    crate::replies::err_nickname_in_use_text(server_name@, "*"@, u.nick.unwrap()@),
                ))
            } else {
                final(server_state).users@ == stored.update(
                    i,
                    crate::user_state::UserState {
                        user: crate::user_state::User { registered: true, ..u2 },
                    },
                ) && final(server_state).nick@.len() == old(server_state).nick@.len() + 1
                    && final(server_state).nick@.drop_last() == old(server_state).nick@
                    && final(server_state).nick@.last().0@ == u.nick.unwrap()@
                    && final(server_state).nick@.last().1 == client_id && (r matches Ok(p) && p.0
                    == UserStatus::Active && p.1@.len() == 1 && is_direct_line(
                    p.1@[0],
                    client_id,
                    crate::replies::welcome_text(
                        server_name@,
                        u.nick.unwrap()@,
                        user_name.0@,
                        u.host@,
                    ),
                ))
            }
        }),
{
    proof {
        let i = old(server_state).user_index(client_id);
        assert(old(server_state).users@[i].user.user_id == client_id);
    }
    server_state.set_user_identity(client_id, user_name.0, real_name.0, mode);
    let ghost mid = *server_state;
    proof {
        let i = old(server_state).user_index(client_id);
        assert(server_state.users@[i].user.user_id == client_id);
        server_state.lemma_user_index(i);
        assert(mid.spec_user(client_id) == mid.users@[i].user);
        assert forall|n: Seq<char>| mid.nick_bound(n) == old(server_state).nick_bound(n) by {}
    }
    when_registered(client_id, server_state, server_name)
}

/// Once both NICK and USER are known, register the session and deliver the
/// welcome; a nickname collision at this point is answered with 433.
pub fn when_registered(
    client_id: ClientId,
    server_state: &mut ServerState,
    server_name: &str,
) -> (r: Result<(UserStatus, Vec<Outbound>), InternalIrcError>)
    requires
        old(server_state).wf(),
        old(server_state).has_user(client_id),
    ensures
        final(server_state).wf(),
        !(r matches Err(InternalIrcError::InvalidCommand)),
        final(server_state).channels == old(server_state).channels,
        final(server_state).ip_counts == old(server_state).ip_counts,
        final(server_state).next_user_id == old(server_state).next_user_id,
        ({
            let u = old(server_state).spec_user(client_id);
            let i = old(server_state).user_index(client_id);
            if u.registered {
                // already active: the state stands and the welcome repeats
                final(server_state).users@ == old(server_state).users@ && final(server_state).nick@
                    == old(server_state).nick@ && (r matches Ok(p) && p.0 == UserStatus::Active
                    && p.1@.len() == 1 && is_direct_line(
                    p.1@[0],
                    client_id,
                    crate::replies::welcome_text(
                        server_name@,
                        nick_text_of(u),
                        user_text_of(u),
                        u.host@,
                    ),
                ))
            } else if u.nick is None || u.user is None {
                final(server_state).users@ == old(server_state).users@ && final(server_state).nick@
                    == old(server_state).nick@ && (r matches Ok(p) && p.0
                    == UserStatus::Handshaking && p.1@.len() == 0)
            } else if old(server_state).nick_bound(u.nick.unwrap()@) {
                // the wanted nickname belongs to another connection: 433,
                // the session stays unregistered and the binding untouched
                final(server_state).users@ == old(server_state).users@ && final(server_state).nick@
                    == old(server_state).nick@ && (r matches Ok(p) && p.0
                    == UserStatus::Handshaking && p.1@.len() == 1 && is_direct_line(
                    p.1@[0],
                    client_id,
                    crate::replies::err_nickname_in_use_text(server_name@, "*"@, u.nick.unwrap()@),
                ))
            } else {
                // registered: the session enters the nickname index and is
                // welcomed with 001
                final(server_state).users@ == old(server_state).users@.update(
                    i,
                    crate::user_state::UserState {
                        user: crate::user_state::User {
                            registered: true,
                            ..old(server_state).users@[i].user
                        },
                    },
                ) && final(server_state).nick@.len() == old(server_state).nick@.len() + 1
                    && final(server_state).nick@.drop_last() == old(server_state).nick@
                    && final(server_state).nick@.last().0@ == u.nick.unwrap()@
                    && final(server_state).nick@.last().1
                    == client_id && (r matches Ok(p) && p.0 == UserStatus::Active && p.1@.len()
                    == 1 && is_direct_line(
                    p.1@[0],
                    client_id,
                    crate::replies::welcome_text(
                        server_name@,
                        u.nick.unwrap()@,
                        user_text_of(u),
                        u.host@,
                    ),
                ))
            }
        }),
{
    proof {
        let i = old(server_state).user_index(client_id);
        assert(old(server_state).users@[i].user.user_id == client_id);
    }
    let outcome = server_state.try_finalize_registration(client_id);
    proof {
        let i = old(server_state).user_index(client_id);
        assert(server_state.users@[i].user.user_id == client_id);
        server_state.lemma_user_index(i);
    }
    match outcome {
        RegistrationOutcome::NotReady => Ok((UserStatus::Handshaking, Vec::new())),
        RegistrationOutcome::NickInUse => {
            proof {
                let i = old(server_state).user_index(client_id);
                assert(server_state.users@ == old(server_state).users@);
            }
            let snap = match server_state.get_user_state_from_client_id(&client_id) {
                Some(u) => u,
                None => {
                    return Err(InternalIrcError::ServerStateError("session lost"));
                },
            };
            let wanted = match snap.user.nick {
                Some(n) => Nickname(n),
                None => Nickname(String::from_str("*")),
            };
            let asker = Nickname(String::from_str("*"));
            let reply = IrcReply::ErrNicknameInUse { nick: &asker, wanted: &wanted };
            let line = reply.format(server_name);
            let mut outs: Vec<Outbound> = Vec::new();
            outs.push(Outbound::Direct { to: client_id, message: DirectIrcMessage::new(line) });
            Ok((UserStatus::Handshaking, outs))
        },
        RegistrationOutcome::Registered => {
            let snap = match server_state.get_user_state_from_client_id(&client_id) {
                Some(u) => u,
                None => {
                    return Err(InternalIrcError::ServerStateError("session lost"));
                },
            };
            let nick = match snap.user.nick {
                Some(n) => Nickname(n),
                None => Nickname(String::from_str("*")),
            };
            let user = match snap.user.user {
                Some(u) => Username(u),
                None => Username(String::from_str("*")),
            };
            let reply = IrcReply::Welcome {
                nick: &nick,
                user: &user,
                host: snap.user.host.as_str(),
            };
            let line = reply.format(server_name);
            let mut outs: Vec<Outbound> = Vec::new();
            outs.push(Outbound::Direct { to: client_id, message: DirectIrcMessage::new(line) });
            Ok((UserStatus::Active, outs))
        },
    }
}

/// User MODE: apply the change, or answer 501 or 502.
pub fn handle_mode_registration(
    nick: Nickname,
    modes: Vec<(char, Vec<char>)>,
    client_id: ClientId,
    server_state: &mut ServerState,
    server_name: &str,
) -> (r: Result<(UserStatus, Vec<Outbound>), InternalIrcError>)
    requires
        old(server_state).wf(),
        old(server_state).has_user(client_id),
    ensures
        final(server_state).wf(),
        !(r matches Err(InternalIrcError::InvalidCommand)),
        final(server_state).nick == old(server_state).nick,
        final(server_state).channels == old(server_state).channels,
        final(server_state).next_user_id == old(server_state).next_user_id,
        ({
            let gs = crate::user_state::groups_view(modes@);
            let u = old(server_state).spec_user(client_id);
            let i = old(server_state).user_index(client_id);
            if !crate::user_state::groups_valid(gs) {
                final(server_state).users@ == old(server_state).users@ && (r matches Ok(p) && p.0
                    == UserStatus::Active && p.1@.len() == 1 && is_direct_line(
                    p.1@[0],
                    client_id,
                    crate::replies::err_umode_unknown_flag_text(server_name@, nick@),
                ))
            } else if !u.registered {
                final(server_state).users@ == old(server_state).users@ && (r matches Err(
                    InternalIrcError::UserStateError(_),
                ))
            } else if !(u.nick matches Some(n) && n@ == nick@) {
                final(server_state).users@ == old(server_state).users@ && (r matches Ok(p) && p.0
                    == UserStatus::Active && p.1@.len() == 1 && is_direct_line(
                    p.1@[0],
                    client_id,
                    crate::replies::err_users_dont_match_text(server_name@, nick@),
                ))
            } else {
                final(server_state).users@ == old(server_state).users@.update(
                    i,
                    crate::user_state::UserState {
                        user: crate::user_state::User {
                            modes: crate::user_state::apply_groups(u.modes, gs),
                            ..old(server_state).users@[i].user
                        },
                    },
                ) && (r matches Ok(p) && p.0 == UserStatus::Active && p.1@.len() == 0)
            }
        }),
{
    match server_state.apply_user_modes(client_id, nick.0.as_str(), modes) {
        Ok(Some(UserModeFailure::UnknownFlag)) => {
            let reply = IrcReply::ErrUModeUnknownFlag { nick: &nick };
            let line = reply.format(server_name);
            let mut outs: Vec<Outbound> = Vec::new();
            outs.push(Outbound::Direct { to: client_id, message: DirectIrcMessage::new(line) });
            Ok((UserStatus::Active, outs))
        },
        Ok(Some(UserModeFailure::UsersDontMatch)) => {
            let reply = IrcReply::ErrUsersDontMatch { nick: &nick };
            let line = reply.format(server_name);
            let mut outs: Vec<Outbound> = Vec::new();
            outs.push(Outbound::Direct { to: client_id, message: DirectIrcMessage::new(line) });
            Ok((UserStatus::Active, outs))
        },
        Ok(None) => Ok((UserStatus::Active, Vec::new())),
        Err(e) => Err(e),
    }
}

/// QUIT: tear the session down and relay to every neighbour once.
#[verifier::rlimit(60)]
pub fn handle_quit_registration(
    reason: Option<String>,
    client_id: ClientId,
    server_state: &mut ServerState,
) -> (r: Result<(UserStatus, Vec<Outbound>), InternalIrcError>)
    requires
        old(server_state).wf(),
    ensures
        final(server_state).wf(),
        !(r matches Err(InternalIrcError::InvalidCommand)),
        (r matches Ok(p) && p.0 == UserStatus::Leaving(reason)),
        !old(server_state).has_user(client_id) ==> *final(server_state) == *old(server_state)
            && (r matches Ok(p) && p.1@.len() == 0),
        old(server_state).has_user(client_id) ==> {
            let quitter = old(server_state).spec_user(client_id);
            &&& !final(server_state).has_user(client_id)
            &&& forall|id2: ClientId|
                id2 != client_id ==> final(server_state).has_user(id2) == old(
                    server_state,
                ).has_user(id2)
            &&& forall|id2: ClientId|
                id2 != client_id && old(server_state).has_user(id2)
                    ==> final(server_state).spec_user(id2) == old(server_state).spec_user(id2)
            &&& forall|n: Seq<char>, x: ClientId|
                final(server_state).nick_has(n, x) == (old(server_state).nick_has(n, x) && x
                    != client_id)
            &&& forall|nm: Seq<char>|
                final(server_state).has_channel(nm) == (old(server_state).has_channel(nm) && (
                exists|x: ClientId|
                    old(server_state).spec_channel(nm).members@.contains(x) && x != client_id))
            &&& forall|nm: Seq<char>|
                final(server_state).has_channel(nm) ==> {
                    let c2 = final(server_state).spec_channel(nm);
                    let c1 = old(server_state).spec_channel(nm);
                    (forall|x: ClientId|
                        c2.members@.contains(x) == (c1.members@.contains(x) && x != client_id))
                        && c2.name == c1.name && c2.topic == c1.topic
                }
            &&& r matches Ok(p) && (if quitter.nick is Some && quitter.user is Some {
                relays_once_to_neighbors(
                    *old(server_state),
                    quitter.member_of@,
                    client_id,
                    crate::replies::quit_msg_text(
                        quitter.nick.unwrap()@,
                        quitter.user.unwrap()@,
                        quitter.host@,
                        match reason {
                            Some(t) => t@,
                            None => "Client Quit"@,
                        },
                    ),
                    p.1@,
                )
            } else {
                p.1@.len() == 0
            })
        },
{
    let reason2 = match &reason {
        Some(t) => Some(t.clone()),
        None => None,
    };
    proof {
        assert(reason2 == reason);
    }
    let outs = server_state.handle_quit(client_id, reason2);
    proof {
        if old(server_state).has_user(client_id) {
            let quitter = old(server_state).spec_user(client_id);
            assert(!server_state.has_user(client_id));
            assert forall|id2: ClientId|
                id2 != client_id implies server_state.has_user(id2) == old(
                server_state,
            ).has_user(id2) by {}
            assert forall|id2: ClientId|
                id2 != client_id && old(server_state).has_user(id2) implies server_state.spec_user(
                id2,
            ) == old(server_state).spec_user(id2) by {}
            assert forall|nm: Seq<char>|
                server_state.has_channel(nm) == (old(server_state).has_channel(nm) && (exists|
                    x: ClientId,
                |
                    old(server_state).spec_channel(nm).members@.contains(x) && x
                        != client_id)) by {}
            assert forall|nm: Seq<char>|
                server_state.has_channel(nm) implies {
                let c2 = server_state.spec_channel(nm);
                let c1 = old(server_state).spec_channel(nm);
                (forall|x: ClientId|
                    c2.members@.contains(x) == (c1.members@.contains(x) && x != client_id))
                    && c2.name == c1.name && c2.topic == c1.topic
            } by {}
            assert forall|i: int, j: int|
                0 <= i < j < outs@.len() implies (#[trigger] outs@[i]).direct_to() != (
            #[trigger] outs@[j]).direct_to() by {}
            assert(forall|n: Seq<char>, x: ClientId|
                server_state.nick_has(n, x) == (old(server_state).nick_has(n, x) && x
                    != client_id));
            if quitter.nick is Some && quitter.user is Some {
                let line0 = crate::replies::quit_msg_text(
                    quitter.nick.unwrap()@,
                    quitter.user.unwrap()@,
                    quitter.host@,
                    match &reason {
                        Some(t) => t@,
                        None => "Client Quit"@,
                    },
                );
                assert(match reason2 {
                    Some(t) => t@,
                    None => "Client Quit"@,
                } == match reason {
                    Some(t) => t@,
                    None => "Client Quit"@,
                });
                assert(forall|i: int|
                    0 <= i < outs@.len() ==> ((#[trigger] outs@[i]) matches Outbound::Direct {
                        to,
                        message: m,
                    } && m.raw_line@ == crate::message_models::crlf_terminated(
                        crate::replies::quit_msg_text(
                            quitter.nick.unwrap()@,
                            quitter.user.unwrap()@,
                            quitter.host@,
                            match reason {
                                Some(t) => t@,
                                None => "Client Quit"@,
                            },
                        ),
                    )));
                assert forall|x: ClientId|
                    (exists|i: int|
                        0 <= i < outs@.len() && (#[trigger] outs@[i]).direct_to() == Some(x)) == (
                crate::server_state::reaches(*old(server_state), quitter.member_of@, x) && x
                    != client_id) by {
                    let trigger_term = crate::server_state::reaches(
                        *old(server_state),
                        quitter.member_of@,
                        x,
                    );
                    assert(trigger_term ==> (exists|i: int|
                        0 <= i < outs@.len() && (#[trigger] outs@[i]).direct_to() == Some(x))
                        || x == client_id);
                }
                assert(relays_once_to_neighbors(
                    *old(server_state),
                    quitter.member_of@,
                    client_id,
                    line0,
                    outs@,
                ));
            } else {
                assert(outs@.len() == 0);
            }
        }
    }
    Ok((UserStatus::Leaving(reason), outs))
}

/// The privilege prefix a member carries in a NAMES reply.
pub open spec fn member_prefix(ops: Seq<ClientId>, voiced: Seq<ClientId>, id: ClientId) -> Seq<
    char,
> {
    if ops.contains(id) {
        "@"@
    } else if voiced.contains(id) {
        "+"@
    } else {
        Seq::<char>::empty()
    }
}

/// One member's entry in a NAMES reply: its prefix and its nickname.
pub open spec fn member_entry(
    s: ServerState,
    ops: Seq<ClientId>,
    voiced: Seq<ClientId>,
    id: ClientId,
) -> Seq<char> {
    member_prefix(ops, voiced, id) + (if s.has_user(id) && s.spec_user(id).nick is Some {
        s.spec_user(id).nick.unwrap()@
    } else {
        "*"@
    })
}

/// The member entries from position `i` on, joined with single spaces.
pub open spec fn names_join_from(
    s: ServerState,
    ops: Seq<ClientId>,
    voiced: Seq<ClientId>,
    ms: Seq<ClientId>,
    i: int,
) -> Seq<char>
    decreases ms.len() - i,
{
    if i < 0 || i >= ms.len() {
        Seq::<char>::empty()
    } else if i == ms.len() - 1 {
        member_entry(s, ops, voiced, ms[i])
    } else {
        member_entry(s, ops, voiced, ms[i]) + " "@ + names_join_from(s, ops, voiced, ms, i + 1)
    }
}

/// The whole member list of a NAMES reply.
pub open spec fn names_list_text(
    s: ServerState,
    ops: Seq<ClientId>,
    voiced: Seq<ClientId>,
    ms: Seq<ClientId>,
) -> Seq<char> {
    names_join_from(s, ops, voiced, ms, 0)
}

/// The NAMES burst of one channel: the visibility symbol and the member
/// list with operator and voice prefixes.
pub fn handle_names_reply(channel: &IrcChannel, server_state: &ServerState) -> (r: (
    String,
    String,
))
    requires
        server_state.wf(),
        forall|i: int|
            0 <= i < channel.members@.len() ==> server_state.has_user(
                #[trigger] channel.members@[i],
            ),
    ensures
        r.0@ == (if channel.modes.secret {
            "@"@
        } else if channel.modes.private {
            "*"@
        } else {
            "="@
        }),
        r.1@ == names_list_text(
            *server_state,
            channel.operators@,
            channel.voiced@,
            channel.members@,
        ),
{
    proof {
        reveal_strlit("@");
        reveal_strlit("*");
        reveal_strlit("=");
    }
    let visibility = if channel.modes.secret {
        String::from_str("@")
    } else if channel.modes.private {
        String::from_str("*")
    } else {
        String::from_str("=")
    };
    let ghost ops = channel.operators@;
    let ghost voiced = channel.voiced@;
    let ghost ms = channel.members@;
    let mut names = String::new();
    let k = channel.members.len();
    let mut i: usize = 0;
    proof {
        assert(Seq::<char>::empty() + names_join_from(*server_state, ops, voiced, ms, 0)
            =~= names_join_from(*server_state, ops, voiced, ms, 0));
    }
    while i < k
        invariant
            0 <= i <= k,
            k == channel.members@.len(),
            ops == channel.operators@,
            voiced == channel.voiced@,
            ms == channel.members@,
            server_state.wf(),
            forall|x: int|
                0 <= x < channel.members@.len() ==> server_state.has_user(
                    #[trigger] channel.members@[x],
                ),
            names_list_text(*server_state, ops, voiced, ms) == names@ + names_join_from(
                *server_state,
                ops,
                voiced,
                ms,
                i as int,
            ),
        decreases k - i,
    {
        let id = channel.members[i];
        let ghost prev = names@;
        match server_state.get_user_state_from_client_id(&id) {
            Some(u) => {
                if crate::channels_models::id_vec_contains(&channel.operators, id) {
                    names.append("@");
                } else if crate::channels_models::id_vec_contains(&channel.voiced, id) {
                    names.append("+");
                }
                match u.user.nick {
                    Some(n) => {
                        names.append(n.as_str());
                    },
                    None => {
                        names.append("*");
                    },
                }
                proof {
                    assert(names@ =~= prev + member_entry(*server_state, ops, voiced, id));
                }
                if i + 1 < k {
                    names.append(" ");
                    proof {
                        assert(names@ =~= prev + member_entry(*server_state, ops, voiced, id)
                            + " "@);
                        assert(prev + member_entry(*server_state, ops, voiced, id) + " "@
                            + names_join_from(*server_state, ops, voiced, ms, i + 1) =~= prev + (
                        member_entry(*server_state, ops, voiced, id) + " "@ + names_join_from(
                            *server_state,
                            ops,
                            voiced,
                            ms,
                            i + 1,
                        )));
                    }
                } else {
                    proof {
                        assert(names_join_from(*server_state, ops, voiced, ms, i + 1)
                            =~= Seq::<char>::empty());
                        assert(prev + member_entry(*server_state, ops, voiced, id) + Seq::<
                            char,
                        >::empty() =~= prev + member_entry(*server_state, ops, voiced, id));
                    }
                }
            },
            None => {
                proof {
                    assert(server_state.has_user(ms[i as int]));
                    assert(false);
                }
            },
        }
        i = i + 1;
    }
    proof {
        assert(names_join_from(*server_state, ops, voiced, ms, k as int)
            =~= Seq::<char>::empty());
        assert(names@ + Seq::<char>::empty() =~= names@);
    }
    (visibility, names)
}

/// How one admitted or refused join changes the registry: `NewJoin` adds
/// the member on both sides of the membership link, creating the channel
/// when it is new; every other outcome leaves the registry as it stands.
pub open spec fn join_state_ok(
    pre: ServerState,
    post: ServerState,
    id: ClientId,
    nm: Seq<char>,
    pushed: String,
    d: IrcChannelOperationStatus,
) -> bool {
    if d == IrcChannelOperationStatus::NewJoin {
        let ui = pre.user_index(id);
        let u2 = post.users@[ui].user;
        let c2 = post.spec_channel(nm);
        &&& post.has_channel(nm)
        &&& c2.members@.contains(id)
        &&& post.spec_user(id).lists_channel(nm)
        &&& post.users@.len() == pre.users@.len()
        &&& forall|x: int| 0 <= x < pre.users@.len() && x != ui ==> post.users@[x] == pre.users@[x]
        &&& u2.identity() == pre.users@[ui].user.identity()
        &&& u2.member_of@ == pre.users@[ui].user.member_of@.push(pushed)
        &&& if pre.has_channel(nm) {
            let ci = pre.channel_index(nm);
            let c1 = pre.channels@[ci];
            &&& post.channels@.len() == pre.channels@.len()
            &&& forall|x: int|
                0 <= x < pre.channels@.len() && x != ci ==> post.channels@[x] == pre.channels@[x]
            &&& c2.members@ == c1.members@.push(id)
            &&& c2.operators@ == c1.operators@
            &&& c2.voiced@ == c1.voiced@
            &&& c2.topic == c1.topic
            &&& c2.modes == c1.modes
        } else {
            &&& post.channels@.len() == pre.channels@.len() + 1
            &&& forall|x: int|
                0 <= x < pre.channels@.len() ==> post.channels@[x] == pre.channels@[x]
            &&& c2.members@ == seq![id]
            &&& c2.operators@ == seq![id]
            &&& c2.voiced@.len() == 0
            &&& c2.modes.is_fresh()
            &&& c2.topic is None
        }
    } else {
        post.users@ == pre.users@ && post.channels@ == pre.channels@
    }
}

/// The outbound burst one join owes: on admission the subscription, the
/// JOIN relay to the channel, then the topic (332 or 331), the NAMES line
/// and its end marker to the joiner; on a denial the one numeric; on a
/// repeated join nothing at all.
pub open spec fn join_outputs_ok(
    pre: ServerState,
    post: ServerState,
    u: crate::user_state::User,
    id: ClientId,
    nm: Seq<char>,
    d: IrcChannelOperationStatus,
    server: Seq<char>,
    v: Seq<Outbound>,
) -> bool {
    if d == IrcChannelOperationStatus::NewJoin {
        &&& v.len() == 5
        &&& (v[0] matches Outbound::Subscribe { channel } && channel@ == nm)
        &&& (v[1] matches Outbound::Broadcast { channel, message: m } && channel@ == nm
            && m.sender is None && m.raw_line@ == crate::message_models::crlf_terminated(
            crate::replies::broadcast_join_text(nick_text_of(u), user_text_of(u), u.host@, nm),
        ))
        &&& is_direct_line(
            v[2],
            id,
            if pre.has_channel(nm) && pre.spec_channel(nm).topic is Some {
                crate::replies::topic_text(
                    server,
                    nick_text_of(u),
                    nm,
                    pre.spec_channel(nm).topic.unwrap()@,
                )
            } else {
                crate::replies::no_topic_text(server, nick_text_of(u), nm)
            },
        )
        &&& is_direct_line(
            v[3],
            id,
            crate::replies::names_text(
                server,
                nick_text_of(u),
                nm,
                if post.spec_channel(nm).modes.secret {
                    "@"@
                } else if post.spec_channel(nm).modes.private {
                    "*"@
                } else {
                    "="@
                },
                names_list_text(
                    post,
                    post.spec_channel(nm).operators@,
                    post.spec_channel(nm).voiced@,
                    post.spec_channel(nm).members@,
                ),
            ),
        )
        &&& is_direct_line(v[4], id, crate::replies::end_of_names_text(server, nick_text_of(u), nm))
    } else if d == IrcChannelOperationStatus::AlreadyMember {
        v.len() == 0
    } else {
        v.len() == 1 && is_direct_line(
            v[0],
            id,
            if d == IrcChannelOperationStatus::ChannelIsFull {
                crate::replies::err_channel_is_full_text(server, nick_text_of(u), nm)
            } else if d == IrcChannelOperationStatus::BannedFromChan {
                crate::replies::err_banned_from_chan_text(server, nick_text_of(u), nm)
            } else if d == IrcChannelOperationStatus::InviteOnlyChan {
                crate::replies::err_invite_only_chan_text(server, nick_text_of(u), nm)
            } else {
                crate::replies::err_bad_channel_key_text(server, nick_text_of(u), nm)
            },
        )
    }
}

/// JOIN: for each channel, run the admission checks; a new member's writer
/// subscribes, the JOIN relay goes to every member, and the joiner gets the
/// topic and NAMES burst; denials are answered with their numeric.
#[verifier::rlimit(100)]
pub fn handle_join_channel(
    channels_keys: Vec<(ChannelName, Option<String>)>,
    client_id: ClientId,
    server_state: &mut ServerState,
    server_name: &str,
) -> (r: Result<(UserStatus, Vec<Outbound>), InternalIrcError>)
    requires
        old(server_state).wf(),
        old(server_state).has_user(client_id),
    ensures
        final(server_state).wf(),
        final(server_state).has_user(client_id),
        !(r matches Err(InternalIrcError::InvalidCommand)),
        final(server_state).nick == old(server_state).nick,
        final(server_state).ip_counts == old(server_state).ip_counts,
        final(server_state).next_user_id == old(server_state).next_user_id,
        !old(server_state).spec_user(client_id).registered ==> final(server_state).users@ == old(
            server_state,
        ).users@ && final(server_state).channels@ == old(server_state).channels@ && (r matches Ok(
            p,
        ) && p.0 == UserStatus::Active && p.1@.len() == 1 && is_direct_line(
            p.1@[0],
            client_id,
            crate::replies::err_not_registered_text(
                server_name@,
                display_nick_of(*old(server_state), client_id),
            ),
        )),
        (old(server_state).spec_user(client_id).registered && channels_keys@.len() == 1) ==> ({
            let u = old(server_state).spec_user(client_id);
            let nm = channels_keys@[0].0@;
            let d = crate::server_state::join_decision(
                *old(server_state),
                nm,
                client_id,
                channels_keys@[0].1,
                false,
            );
            &&& join_state_ok(
                *old(server_state),
                *final(server_state),
                client_id,
                nm,
                channels_keys@[0].0.0,
                d,
            )
            &&& (r matches Ok(p) && p.0 == UserStatus::Active && join_outputs_ok(
                *old(server_state),
                *final(server_state),
                u,
                client_id,
                nm,
                d,
                server_name@,
                p.1@,
            ))
        }),
{
    let snap = match server_state.get_user_state_from_client_id(&client_id) {
        Some(u) => u,
        None => {
            return Err(InternalIrcError::ServerStateError("session lost"));
        },
    };
    if !snap.user.registered {
        let nick = Nickname(display_nick(server_state, client_id));
        let reply = IrcReply::ErrNotRegistered { nick: &nick };
        let line = reply.format(server_name);
        let mut outs: Vec<Outbound> = Vec::new();
        outs.push(Outbound::Direct { to: client_id, message: DirectIrcMessage::new(line) });
        return Ok((UserStatus::Active, outs));
    }
    let ghost uspec = old(server_state).spec_user(client_id);
    let nick = match snap.user.nick {
        Some(n) => Nickname(n),
        None => Nickname(String::from_str("*")),
    };
    let user = match snap.user.user {
        Some(u) => Username(u),
        None => Username(String::from_str("*")),
    };
    let mut outs: Vec<Outbound> = Vec::new();
    let kn = channels_keys.len();
    let mut i: usize = 0;
    while i < kn
        invariant
            0 <= i <= kn,
            kn == channels_keys@.len(),
            server_state.wf(),
            server_state.has_user(client_id),
            server_state.nick == old(server_state).nick,
            server_state.ip_counts == old(server_state).ip_counts,
            server_state.next_user_id == old(server_state).next_user_id,
            uspec == old(server_state).spec_user(client_id),
            uspec.registered,
            nick@ == nick_text_of(uspec),
            user@ == user_text_of(uspec),
            snap.user.host@ == uspec.host@,
            i == 0 ==> *server_state == *old(server_state),
            i == 0 ==> outs@.len() == 0,
            (kn == 1 && i == 1) ==> ({
                let nm = channels_keys@[0].0@;
                let d = crate::server_state::join_decision(
                    *old(server_state),
                    nm,
                    client_id,
                    channels_keys@[0].1,
                    false,
                );
                &&& join_state_ok(
                    *old(server_state),
                    *server_state,
                    client_id,
                    nm,
                    channels_keys@[0].0.0,
                    d,
                )
                &&& join_outputs_ok(
                    *old(server_state),
                    *server_state,
                    uspec,
                    client_id,
                    nm,
                    d,
                    server_name@,
                    outs@,
                )
            }),
        decreases kn - i,
    {
        let channel_name = ChannelName(channels_keys[i].0.0.clone());
        let key = match &channels_keys[i].1 {
            Some(s) => Some(s.clone()),
            None => None,
        };
        proof {
            assert(key == channels_keys@[i as int].1);
            assert(channel_name@ == channels_keys@[i as int].0@);
        }
        match server_state.handle_join(channel_name, client_id, key, false) {
            Ok((IrcChannelOperationStatus::NewJoin, Some(channel))) => {
                outs.push(
                    Outbound::Subscribe { channel: ChannelName(channel.name.0.clone()) },
                );
                let relay = MessageReply::BroadcastJoinMsg {
                    nick: &nick,
                    user: &user,
                    host: snap.user.host.as_str(),
                    channel: &channel.name,
                };
                let line = relay.format();
                outs.push(
                    Outbound::Broadcast {
                        channel: ChannelName(channel.name.0.clone()),
                        message: DirectIrcMessage::new(line),
                    },
                );
                match &channel.topic {
                    Some(t) => {
                        let reply = IrcReply::Topic {
                            nick: &nick,
                            channel: &channel.name,
                            topic: t,
                        };
                        let line2 = reply.format(server_name);
                        outs.push(
                            Outbound::Direct {
                                to: client_id,
                                message: DirectIrcMessage::new(line2),
                            },
                        );
                    },
                    None => {
                        let reply = IrcReply::NoTopic { nick: &nick, channel: &channel.name };
                        let line2 = reply.format(server_name);
                        outs.push(
                            Outbound::Direct {
                                to: client_id,
                                message: DirectIrcMessage::new(line2),
                            },
                        );
                    },
                }
                let (visibility, member_list) = handle_names_reply(&channel, server_state);
                let reply = IrcReply::Names {
                    nick: &nick,
                    channel: &channel.name,
                    visibility: visibility.as_str(),
                    names: member_list.as_str(),
                };
                let line3 = reply.format(server_name);
                outs.push(
                    Outbound::Direct { to: client_id, message: DirectIrcMessage::new(line3) },
                );
                let reply = IrcReply::EndOfName { nick: &nick, channel: &channel.name };
                let line4 = reply.format(server_name);
                outs.push(
                    Outbound::Direct { to: client_id, message: DirectIrcMessage::new(line4) },
                );
                proof {
                    if kn == 1 && i == 0 {
                        let nm = channels_keys@[0].0@;
                        let pre = *old(server_state);
                        let post = *server_state;
                        let c2 = post.spec_channel(nm);
                        assert(channel.name@ == nm);
                        assert(channel.topic == c2.topic);
                        assert(channel.operators@ == c2.operators@);
                        assert(channel.voiced@ == c2.voiced@);
                        assert(channel.members@ == c2.members@);
                        assert(channel.modes.secret == c2.modes.secret);
                        assert(channel.modes.private == c2.modes.private);
                        // the new member stands in the channel and the list
                        if pre.has_channel(nm) {
                            let c1 = pre.spec_channel(nm);
                            assert(c2.members@.last() == client_id);
                            assert(c2.members@.contains(client_id));
                        } else {
                            assert(c2.members@[0] == client_id);
                            assert(c2.members@.contains(client_id));
                        }
                        let ui = pre.user_index(client_id);
                        assert(post.users@[ui].user.member_of@.last()@ == nm);
                        assert(post.users@[ui].user.lists_channel(nm));
                        assert(post.user_index(client_id) == ui) by {
                            assert(post.users@[ui].user.user_id == client_id);
                            post.lemma_user_index(ui);
                        }
                        // the burst in order
                        assert(outs@.len() == 5);
                        assert(outs@[0] matches Outbound::Subscribe { channel: cn0 } && cn0@
                            == nm);
                        assert(outs@[1] matches Outbound::Broadcast { channel: cn1, message: m }
                            && cn1@ == nm && m.sender is None && m.raw_line@
                            == crate::message_models::crlf_terminated(
                            crate::replies::broadcast_join_text(
                                nick_text_of(uspec),
                                user_text_of(uspec),
                                uspec.host@,
                                nm,
                            ),
                        ));
                        assert(is_direct_line(
                            outs@[2],
                            client_id,
                            if pre.has_channel(nm) && pre.spec_channel(nm).topic is Some {
                                crate::replies::topic_text(
                                    server_name@,
                                    nick_text_of(uspec),
                                    nm,
                                    pre.spec_channel(nm).topic.unwrap()@,
                                )
                            } else {
                                crate::replies::no_topic_text(server_name@, nick_text_of(uspec), nm)
                            },
                        ));
                        assert(member_list@ == names_list_text(
                            post,
                            c2.operators@,
                            c2.voiced@,
                            c2.members@,
                        ));
                        assert(visibility@ == (if c2.modes.secret {
                            "@"@
                        } else if c2.modes.private {
                            "*"@
                        } else {
                            "="@
                        }));
                        assert(line3@ == crate::replies::names_text(
                            server_name@,
                            nick_text_of(uspec),
                            nm,
                            if c2.modes.secret {
                                "@"@
                            } else if c2.modes.private {
                                "*"@
                            } else {
                                "="@
                            },
                            names_list_text(post, c2.operators@, c2.voiced@, c2.members@),
                        ));
                        assert(is_direct_line(
                            outs@[3],
                            client_id,
                            crate::replies::names_text(
                                server_name@,
                                nick_text_of(uspec),
                                nm,
                                if c2.modes.secret {
                                    "@"@
                                } else if c2.modes.private {
                                    "*"@
                                } else {
                                    "="@
                                },
                                names_list_text(post, c2.operators@, c2.voiced@, c2.members@),
                            ),
                        ));
                        assert(is_direct_line(
                            outs@[4],
                            client_id,
                            crate::replies::end_of_names_text(server_name@, nick_text_of(uspec), nm),
                        ));
                    }
                }
            },
            Ok((IrcChannelOperationStatus::ChannelIsFull, _)) => {
                let cn = ChannelName(channels_keys[i].0.0.clone());
                let reply = IrcReply::ErrChannelIsFull { nick: &nick, channel: &cn };
                let line = reply.format(server_name);
                outs.push(
                    Outbound::Direct { to: client_id, message: DirectIrcMessage::new(line) },
                );
            },
            Ok((IrcChannelOperationStatus::BannedFromChan, _)) => {
                let cn = ChannelName(channels_keys[i].0.0.clone());
                let reply = IrcReply::ErrBannedFromChan { nick: &nick, channel: &cn };
                let line = reply.format(server_name);
                outs.push(
                    Outbound::Direct { to: client_id, message: DirectIrcMessage::new(line) },
                );
            },
            Ok((IrcChannelOperationStatus::InviteOnlyChan, _)) => {
                let cn = ChannelName(channels_keys[i].0.0.clone());
                let reply = IrcReply::ErrInviteOnlyChan { nick: &nick, channel: &cn };
                let line = reply.format(server_name);
                outs.push(
                    Outbound::Direct { to: client_id, message: DirectIrcMessage::new(line) },
                );
            },
            Ok((IrcChannelOperationStatus::BadChannelKey, _)) => {
                let cn = ChannelName(channels_keys[i].0.0.clone());
                let reply = IrcReply::ErrBadChannelKey { nick: &nick, channel: &cn };
                let line = reply.format(server_name);
                outs.push(
                    Outbound::Direct { to: client_id, message: DirectIrcMessage::new(line) },
                );
            },
            Ok(_) => {},
            Err(_) => {},
        }
        proof {
            if kn == 1 && i == 0 {
                let nm = channels_keys@[0].0@;
                let d = crate::server_state::join_decision(
                    *old(server_state),
                    nm,
                    client_id,
                    channels_keys@[0].1,
                    false,
                );
                if d == IrcChannelOperationStatus::NewJoin {
                    let ui = old(server_state).user_index(client_id);
                    assert(server_state.has_channel(nm));
                    assert(server_state.spec_channel(nm).members@.contains(client_id));
                    assert(server_state.spec_user(client_id).lists_channel(nm));
                    assert(server_state.users@.len() == old(server_state).users@.len());
                    assert(server_state.users@[ui].user.member_of@ == old(
                        server_state,
                    ).users@[ui].user.member_of@.push(channels_keys@[0].0.0));
                } else if d == IrcChannelOperationStatus::AlreadyMember {
                    assert(server_state.users@ == old(server_state).users@);
                    assert(server_state.channels@ == old(server_state).channels@);
                } else {
                    assert(server_state.users@ == old(server_state).users@);
                    assert(server_state.channels@ == old(server_state).channels@);
                }
                assert(join_state_ok(
                    *old(server_state),
                    *server_state,
                    client_id,
                    nm,
                    channels_keys@[0].0.0,
                    d,
                ));
                assert(join_outputs_ok(
                    *old(server_state),
                    *server_state,
                    uspec,
                    client_id,
                    nm,
                    d,
                    server_name@,
                    outs@,
                ));
            }
        }
        i = i + 1;
    }
    Ok((UserStatus::Active, outs))
}

/// A JOIN without parameters deserves 461.
pub fn handle_invalid_join_channel(
    command: String,
    client_id: ClientId,
    server_state: &ServerState,
    server_name: &str,
) -> (r: (UserStatus, Vec<Outbound>))
    requires
        server_state.users_ok(),
    ensures
        r.0 == UserStatus::Active,
        r.1@.len() == 1,
        is_direct_line(
            r.1@[0],
            client_id,
            crate::replies::err_need_more_params_text(
                server_name@,
                display_nick_of(*server_state, client_id),
                command@,
            ),
        ),
{
    let nick = Nickname(display_nick(server_state, client_id));
    let reply = IrcReply::ErrNeedMoreParams { nick: &nick, command: command.as_str() };
    let line = reply.format(server_name);
    let mut outs: Vec<Outbound> = Vec::new();
    outs.push(Outbound::Direct { to: client_id, message: DirectIrcMessage::new(line) });
    (UserStatus::Active, outs)
}

/// How one PART changes the registry: a member leaves on both sides of
/// the membership link and the channel is destroyed when it empties; a
/// non-member's PART leaves the registry as it stands.
pub open spec fn part_state_ok(
    pre: ServerState,
    post: ServerState,
    id: ClientId,
    nm: Seq<char>,
) -> bool {
    if pre.has_channel(nm) && pre.spec_channel(nm).members@.contains(id) {
        let ui = pre.user_index(id);
        let u2 = post.users@[ui].user;
        &&& post.users@.len() == pre.users@.len()
        &&& forall|x: int| 0 <= x < pre.users@.len() && x != ui ==> post.users@[x] == pre.users@[x]
        &&& u2.identity() == pre.users@[ui].user.identity()
        &&& forall|n: Seq<char>|
            u2.lists_channel(n) == (pre.users@[ui].user.lists_channel(n) && n != nm)
        &&& if pre.spec_channel(nm).members@.len() > 1 {
            let ci = pre.channel_index(nm);
            let c1 = pre.channels@[ci];
            let c2 = post.channels@[ci];
            &&& post.channels@.len() == pre.channels@.len()
            &&& forall|x: int|
                0 <= x < pre.channels@.len() && x != ci ==> post.channels@[x] == pre.channels@[x]
            &&& post.has_channel(nm) && post.channel_index(nm) == ci
            &&& forall|x: ClientId|
                c2.members@.contains(x) == (c1.members@.contains(x) && x != id)
            &&& c2.members@.len() == c1.members@.len() - 1
            &&& c2.topic == c1.topic
            &&& c2.name == c1.name
        } else {
            let ci = pre.channel_index(nm);
            post.channels@ == pre.channels@.remove(ci) && !post.has_channel(nm)
        }
    } else {
        post.users@ == pre.users@ && post.channels@ == pre.channels@
    }
}

/// The outbound actions one PART owes: the relay to the channel and the
/// unsubscription for a member, and 442 for anyone else.
pub open spec fn part_outputs_ok(
    pre: ServerState,
    u: crate::user_state::User,
    id: ClientId,
    nm: Seq<char>,
    part_text: Seq<char>,
    server: Seq<char>,
    v: Seq<Outbound>,
) -> bool {
    if pre.has_channel(nm) && pre.spec_channel(nm).members@.contains(id) {
        &&& v.len() == 2
        &&& (v[0] matches Outbound::Broadcast { channel, message: m } && channel@ == nm
            && m.sender is None && m.raw_line@ == crate::message_models::crlf_terminated(
            crate::replies::part_msg_text(
                nick_text_of(u),
                user_text_of(u),
                u.host@,
                nm,
                part_text,
            ),
        ))
        &&& (v[1] matches Outbound::Unsubscribe { channel } && channel@ == nm)
    } else {
        v.len() == 1 && is_direct_line(
            v[0],
            id,
            crate::replies::err_not_on_channel_text(server, nick_text_of(u), nm),
        )
    }
}

/// PART: leave each listed channel after relaying the PART to its members,
/// or answer 442 where the session is no member.
pub fn handle_part_channel(
    channels: Vec<ChannelName>,
    message: Option<String>,
    client_id: ClientId,
    server_state: &mut ServerState,
    server_name: &str,
) -> (r: Result<(UserStatus, Vec<Outbound>), InternalIrcError>)
    requires
        old(server_state).wf(),
    ensures
        final(server_state).wf(),
        !(r matches Err(InternalIrcError::InvalidCommand)),
        final(server_state).nick == old(server_state).nick,
        final(server_state).ip_counts == old(server_state).ip_counts,
        final(server_state).next_user_id == old(server_state).next_user_id,
        !old(server_state).has_user(client_id) ==> (r matches Err(
            InternalIrcError::ServerStateError(_),
        )) && *final(server_state) == *old(server_state),
        (old(server_state).has_user(client_id) && channels@.len() == 1) ==> ({
            let u = old(server_state).spec_user(client_id);
            let nm = channels@[0]@;
            let part_text = match message {
                Some(t) => t@,
                None => nick_text_of(u),
            };
            &&& part_state_ok(*old(server_state), *final(server_state), client_id, nm)
            &&& (r matches Ok(p) && p.0 == UserStatus::Active && part_outputs_ok(
                *old(server_state),
                u,
                client_id,
                nm,
                part_text,
                server_name@,
                p.1@,
            ))
        }),
{
    let snap = match server_state.get_user_state_from_client_id(&client_id) {
        Some(u) => u,
        None => {
            return Err(InternalIrcError::ServerStateError("session lost"));
        },
    };
    let ghost uspec = old(server_state).spec_user(client_id);
    let nick = match snap.user.nick {
        Some(n) => Nickname(n),
        None => Nickname(String::from_str("*")),
    };
    let user = match snap.user.user {
        Some(u) => Username(u),
        None => Username(String::from_str("*")),
    };
    let part_text = match &message {
        Some(t) => t.clone(),
        None => nick.0.clone(),
    };
    let mut outs: Vec<Outbound> = Vec::new();
    let kn = channels.len();
    let mut i: usize = 0;
    while i < kn
        invariant
            0 <= i <= kn,
            kn == channels@.len(),
            server_state.wf(),
            server_state.nick == old(server_state).nick,
            server_state.ip_counts == old(server_state).ip_counts,
            server_state.next_user_id == old(server_state).next_user_id,
            uspec == old(server_state).spec_user(client_id),
            old(server_state).has_user(client_id),
            nick@ == nick_text_of(uspec),
            user@ == user_text_of(uspec),
            snap.user.host@ == uspec.host@,
            part_text@ == (match message {
                Some(t) => t@,
                None => nick_text_of(uspec),
            }),
            i == 0 ==> *server_state == *old(server_state),
            i == 0 ==> outs@.len() == 0,
            (kn == 1 && i == 1) ==> ({
                let nm = channels@[0]@;
                &&& part_state_ok(*old(server_state), *server_state, client_id, nm)
                &&& part_outputs_ok(
                    *old(server_state),
                    uspec,
                    client_id,
                    nm,
                    part_text@,
                    server_name@,
                    outs@,
                )
            }),
        decreases kn - i,
    {
        let cn = ChannelName(channels[i].0.clone());
        proof {
            assert(cn@ == channels@[i as int]@);
        }
        let member = match server_state.get_channel(&cn) {
            Some(c) => crate::channels_models::id_vec_contains(&c.members, client_id),
            None => false,
        };
        if member {
            let relay = MessageReply::PartMsg {
                nick_from: &nick,
                user_from: &user,
                host_from: snap.user.host.as_str(),
                channel: &cn,
                message: part_text.as_str(),
            };
            let line = relay.format();
            outs.push(
                Outbound::Broadcast {
                    channel: ChannelName(cn.0.clone()),
                    message: DirectIrcMessage::new(line),
                },
            );
            outs.push(Outbound::Unsubscribe { channel: ChannelName(cn.0.clone()) });
            server_state.quit_channel(&client_id, &cn);
        } else {
            let reply = IrcReply::ErrNotOnChannel { nick: &nick, channel: &cn };
            let line = reply.format(server_name);
            outs.push(Outbound::Direct { to: client_id, message: DirectIrcMessage::new(line) });
        }
        i = i + 1;
    }
    Ok((UserStatus::Active, outs))
}

/// The text a target reads as, for naming it in an error reply.
pub open spec fn target_text_of(t: MessageTo) -> Seq<char> {
    match t {
        MessageTo::ChannelName(c) => c@,
        MessageTo::Nickname(n) => n@,
        MessageTo::TargetMask(m) => m@,
        MessageTo::UserHostServer(us, h, sv) => us@ + (match h {
            Some(hh) => "%"@ + hh@,
            None => Seq::<char>::empty(),
        }) + "@"@ + sv@,
        MessageTo::UserHost(us, h) => us@ + "%"@ + h@,
        MessageTo::NickUserHost(n, us, h) => n@ + "!"@ + us@ + "@"@ + h@,
    }
}

/// The text a host reads as.
fn host_text(h: &crate::types::Host) -> (r: String)
    ensures
        r@ == h@,
{
    match h {
        crate::types::Host::Hostname(hn) => hn.0.clone(),
        crate::types::Host::IpAddr(crate::types::IpAddr::Ip4Addr(a)) => a.0.clone(),
        crate::types::Host::IpAddr(crate::types::IpAddr::Ip6Addr(a)) => a.0.clone(),
    }
}

/// Renders a target for naming it in an error reply.
fn target_text(t: &MessageTo) -> (r: String)
    ensures
        r@ == target_text_of(*t),
{
    match t {
        MessageTo::ChannelName(c) => c.0.clone(),
        MessageTo::Nickname(n) => n.0.clone(),
        MessageTo::TargetMask(m) => m.0.clone(),
        MessageTo::UserHostServer(us, h, sv) => {
            let mut out = us.0.clone();
            match h {
                Some(hh) => {
                    out.append("%");
                    let ht = host_text(hh);
                    out.append(ht.as_str());
                },
                None => {},
            }
            out.append("@");
            out.append(sv.0.as_str());
            proof {
                assert(out@ =~= target_text_of(*t));
            }
            out
        },
        MessageTo::UserHost(us, h) => {
            let mut out = us.0.clone();
            out.append("%");
            let ht = host_text(h);
            out.append(ht.as_str());
            proof {
                assert(out@ =~= target_text_of(*t));
            }
            out
        },
        MessageTo::NickUserHost(n, us, h) => {
            let mut out = n.0.clone();
            out.append("!");
            out.append(us.0.as_str());
            out.append("@");
            let ht = host_text(h);
            out.append(ht.as_str());
            proof {
                assert(out@ =~= target_text_of(*t));
            }
            out
        },
    }
}

/// The one outbound action PRIVMSG owes for a single target: the relay
/// through the channel's fan-out or to the nickname's session, and 401 for
/// every target the server does not deliver to.
pub open spec fn privmsg_target_out(
    s: ServerState,
    sender: ClientId,
    u: crate::user_state::User,
    target: MessageTo,
    text: Seq<char>,
    server: Seq<char>,
    o: Outbound,
) -> bool {
    match target {
        MessageTo::ChannelName(c) => if s.has_channel(c@) {
            o matches Outbound::Broadcast { channel, message: m } && channel@ == c@ && m.sender
                == Some(sender) && m.raw_line@ == crate::message_models::crlf_terminated(
                crate::replies::channel_privmsg_text(
                    nick_text_of(u),
                    user_text_of(u),
                    u.host@,
                    c@,
                    text,
                ),
            )
        } else {
            is_direct_line(
                o,
                sender,
                crate::replies::err_no_such_nick_text(server, nick_text_of(u), target_text_of(target)),
            )
        },
        MessageTo::Nickname(n) => if s.nick_bound(n@) {
            o matches Outbound::Direct { to, message: m } && to == s.nick_id(n@) && m.sender
                is None && m.raw_line@ == crate::message_models::crlf_terminated(
                crate::replies::nickname_privmsg_text(
                    nick_text_of(u),
                    user_text_of(u),
                    u.host@,
                    n@,
                    text,
                ),
            )
        } else {
            is_direct_line(
                o,
                sender,
                crate::replies::err_no_such_nick_text(server, nick_text_of(u), target_text_of(target)),
            )
        },
        _ => is_direct_line(
            o,
            sender,
            crate::replies::err_no_such_nick_text(server, nick_text_of(u), target_text_of(target)),
        ),
    }
}

/// PRIVMSG: a channel target is relayed through its fan-out without the
/// sender; a nickname target goes to that session's writer; any other
/// target is answered with 401.  The registry stands unchanged.
pub fn handle_privmsg(
    msgtarget: Vec<MessageTo>,
    message: String,
    client_id: ClientId,
    server_state: &ServerState,
    server_name: &str,
) -> (r: Result<(UserStatus, Vec<Outbound>), InternalIrcError>)
    requires
        server_state.wf(),
    ensures
        !(r matches Err(InternalIrcError::InvalidCommand)),
        ({
            let u = server_state.spec_user(client_id);
            if !server_state.has_user(client_id) {
                r matches Err(InternalIrcError::ServerStateError(_))
            } else if !(u.nick is Some && u.user is Some) {
                r matches Err(InternalIrcError::UserStateError(_))
            } else if message@.len() == 0 {
                r matches Ok(p) && p.0 == UserStatus::Active && p.1@.len() == 1
                    && is_direct_line(
                    p.1@[0],
                    client_id,
                    crate::replies::err_no_text_to_send_text(server_name@, nick_text_of(u)),
                )
            } else {
                r matches Ok(p) && p.0 == UserStatus::Active && p.1@.len() == msgtarget@.len()
                    && (forall|i: int|
                    0 <= i < msgtarget@.len() ==> privmsg_target_out(
                        *server_state,
                        client_id,
                        u,
                        msgtarget@[i],
                        message@,
                        server_name@,
                        #[trigger] p.1@[i],
                    ))
            }
        }),
{
    let snap = match server_state.get_user_state_from_client_id(&client_id) {
        Some(u) => u,
        None => {
            return Err(InternalIrcError::ServerStateError("session lost"));
        },
    };
    let (nick, user) = match (snap.user.nick, snap.user.user) {
        (Some(n), Some(u)) => (Nickname(n), Username(u)),
        _ => {
            return Err(InternalIrcError::UserStateError("sender is not registered"));
        },
    };
    let ghost uspec = server_state.spec_user(client_id);
    if message.as_str().unicode_len() == 0 {
        // an empty text is refused with 412 before any target is tried
        let reply = IrcReply::ErrNoTextToSend { nick: &nick };
        let line = reply.format(server_name);
        let mut outs: Vec<Outbound> = Vec::new();
        outs.push(Outbound::Direct { to: client_id, message: DirectIrcMessage::new(line) });
        return Ok((UserStatus::Active, outs));
    }
    let mut outs: Vec<Outbound> = Vec::new();
    let kn = msgtarget.len();
    let mut i: usize = 0;
    while i < kn
        invariant
            0 <= i <= kn,
            kn == msgtarget@.len(),
            server_state.wf(),
            outs@.len() == i,
            uspec == server_state.spec_user(client_id),
            nick@ == nick_text_of(uspec),
            user@ == user_text_of(uspec),
            snap.user.host@ == uspec.host@,
            forall|x: int|
                0 <= x < i ==> privmsg_target_out(
                    *server_state,
                    client_id,
                    uspec,
                    msgtarget@[x],
                    message@,
                    server_name@,
                    #[trigger] outs@[x],
                ),
        decreases kn - i,
    {
        match &msgtarget[i] {
            MessageTo::ChannelName(channel) => {
                match server_state.get_channel(channel) {
                    Some(_c) => {
                        let relay = MessageReply::ChannelPrivMsg {
                            nick_from: &nick,
                            user_from: &user,
                            host_from: snap.user.host.as_str(),
                            channel,
                            message: message.as_str(),
                        };
                        let line = relay.format();
                        outs.push(
                            Outbound::Broadcast {
                                channel: ChannelName(channel.0.clone()),
                                message: DirectIrcMessage::new_with_sender(line, client_id),
                            },
                        );
                    },
                    None => {
                        let tt = target_text(&msgtarget[i]);
                        let reply = IrcReply::ErrNoSuchNick { nick: &nick, target: tt.as_str() };
                        let line = reply.format(server_name);
                        outs.push(
                            Outbound::Direct {
                                to: client_id,
                                message: DirectIrcMessage::new(line),
                            },
                        );
                    },
                }
            },
            MessageTo::Nickname(nick_to) => {
                match server_state.get_user_state_from_nick(nick_to) {
                    Some(dest) => {
                        let relay = MessageReply::NicknamePrivMsg {
                            nick_from: &nick,
                            user_from: &user,
                            host_from: snap.user.host.as_str(),
                            nick_to,
                            message: message.as_str(),
                        };
                        let line = relay.format();
                        outs.push(
                            Outbound::Direct {
                                to: dest.user.user_id,
                                message: DirectIrcMessage::new(line),
                            },
                        );
                    },
                    None => {
                        let tt = target_text(&msgtarget[i]);
                        let reply = IrcReply::ErrNoSuchNick { nick: &nick, target: tt.as_str() };
                        let line = reply.format(server_name);
                        outs.push(
                            Outbound::Direct {
                                to: client_id,
                                message: DirectIrcMessage::new(line),
                            },
                        );
                    },
                }
            },
            _ => {
                let tt = target_text(&msgtarget[i]);
                let reply = IrcReply::ErrNoSuchNick { nick: &nick, target: tt.as_str() };
                let line = reply.format(server_name);
                outs.push(
                    Outbound::Direct { to: client_id, message: DirectIrcMessage::new(line) },
                );
            },
        }
        i = i + 1;
    }
    Ok((UserStatus::Active, outs))
}

/// A delivery a NOTICE owes: the relay through an existing channel's
/// fan-out or to a bound nickname's session, carrying the NOTICE line.
pub open spec fn notice_delivery(
    s: ServerState,
    sender: ClientId,
    u: crate::user_state::User,
    target: MessageTo,
    text: Seq<char>,
    o: Outbound,
) -> bool {
    match target {
        MessageTo::ChannelName(c) => s.has_channel(c@) && (o matches Outbound::Broadcast {
            channel,
            message: m,
        } && channel@ == c@ && m.sender == Some(sender) && m.raw_line@
            == crate::message_models::crlf_terminated(
            crate::replies::channel_notice_text(
                nick_text_of(u),
                user_text_of(u),
                u.host@,
                c@,
                text,
            ),
        )),
        MessageTo::Nickname(n) => s.nick_bound(n@) && (o matches Outbound::Direct {
            to,
            message: m,
        } && to == s.nick_id(n@) && m.sender is None && m.raw_line@
            == crate::message_models::crlf_terminated(
            crate::replies::nickname_notice_text(
                nick_text_of(u),
                user_text_of(u),
                u.host@,
                n@,
                text,
            ),
        )),
        _ => false,
    }
}

/// Every output is a genuine relay for one of the targets: no error
/// numeric ever leaves a NOTICE.
pub open spec fn notice_outputs_ok(
    s: ServerState,
    sender: ClientId,
    u: crate::user_state::User,
    targets: Seq<MessageTo>,
    text: Seq<char>,
    v: Seq<Outbound>,
) -> bool {
    v.len() <= targets.len() && (forall|j: int|
        0 <= j < v.len() ==> (exists|t: int|
            0 <= t < targets.len() && notice_delivery(
                s,
                sender,
                u,
                targets[t],
                text,
                #[trigger] v[j],
            )))
}

/// NOTICE: like PRIVMSG, but it never draws a reply of any kind; targets
/// the server cannot deliver to are passed over in silence.
pub fn handle_notice(
    msgtarget: Vec<MessageTo>,
    message: String,
    client_id: ClientId,
    server_state: &ServerState,
) -> (r: Result<(UserStatus, Vec<Outbound>), InternalIrcError>)
    requires
        server_state.wf(),
    ensures
        !(r matches Err(InternalIrcError::InvalidCommand)),
        ({
            let u = server_state.spec_user(client_id);
            if !server_state.has_user(client_id) {
                r matches Err(InternalIrcError::ServerStateError(_))
            } else if !(u.nick is Some && u.user is Some) {
                r matches Err(InternalIrcError::UserStateError(_))
            } else {
                r matches Ok(p) && p.0 == UserStatus::Active && notice_outputs_ok(
                    *server_state,
                    client_id,
                    u,
                    msgtarget@,
                    message@,
                    p.1@,
                )
            }
        }),
{
    let snap = match server_state.get_user_state_from_client_id(&client_id) {
        Some(u) => u,
        None => {
            return Err(InternalIrcError::ServerStateError("session lost"));
        },
    };
    let (nick, user) = match (snap.user.nick, snap.user.user) {
        (Some(n), Some(u)) => (Nickname(n), Username(u)),
        _ => {
            return Err(InternalIrcError::UserStateError("sender is not registered"));
        },
    };
    let ghost uspec = server_state.spec_user(client_id);
    let mut outs: Vec<Outbound> = Vec::new();
    let kn = msgtarget.len();
    let mut i: usize = 0;
    while i < kn
        invariant
            0 <= i <= kn,
            kn == msgtarget@.len(),
            server_state.wf(),
            outs@.len() <= i,
            uspec == server_state.spec_user(client_id),
            nick@ == nick_text_of(uspec),
            user@ == user_text_of(uspec),
            snap.user.host@ == uspec.host@,
            notice_outputs_ok(
                *server_state,
                client_id,
                uspec,
                msgtarget@,
                message@,
                outs@,
            ),
        decreases kn - i,
    {
        match &msgtarget[i] {
            MessageTo::ChannelName(channel) => {
                match server_state.get_channel(channel) {
                    Some(_c) => {
                        let ghost prev = outs@;
                        let relay = MessageReply::ChannelNoticeMsg {
                            nick_from: &nick,
                            user_from: &user,
                            host_from: snap.user.host.as_str(),
                            channel,
                            message: message.as_str(),
                        };
                        let line = relay.format();
                        outs.push(
                            Outbound::Broadcast {
                                channel: ChannelName(channel.0.clone()),
                                message: DirectIrcMessage::new_with_sender(line, client_id),
                            },
                        );
                        proof {
                            assert(outs@.drop_last() =~= prev);
                            assert(notice_delivery(
                                *server_state,
                                client_id,
                                uspec,
                                msgtarget@[i as int],
                                message@,
                                outs@.last(),
                            ));
                            assert forall|j: int|
                                0 <= j < outs@.len() implies (exists|t: int|
                                0 <= t < msgtarget@.len() && notice_delivery(
                                    *server_state,
                                    client_id,
                                    uspec,
                                    msgtarget@[t],
                                    message@,
                                    #[trigger] outs@[j],
                                )) by {
                                if j < outs@.len() - 1 {
                                    assert(outs@[j] == prev[j]);
                                } else {
                                    assert(notice_delivery(
                                        *server_state,
                                        client_id,
                                        uspec,
                                        msgtarget@[i as int],
                                        message@,
                                        outs@[j],
                                    ));
                                }
                            }
                        }
                    },
                    None => {},
                }
            },
            MessageTo::Nickname(nick_to) => {
                match server_state.get_user_state_from_nick(nick_to) {
                    Some(dest) => {
                        let ghost prev = outs@;
                        let relay = MessageReply::NicknameNoticeMsg {
                            nick_from: &nick,
                            user_from: &user,
                            host_from: snap.user.host.as_str(),
                            nick_to,
                            message: message.as_str(),
                        };
                        let line = relay.format();
                        outs.push(
                            Outbound::Direct {
                                to: dest.user.user_id,
                                message: DirectIrcMessage::new(line),
                            },
                        );
                        proof {
                            assert(outs@.drop_last() =~= prev);
                            assert(notice_delivery(
                                *server_state,
                                client_id,
                                uspec,
                                msgtarget@[i as int],
                                message@,
                                outs@.last(),
                            ));
                            assert forall|j: int|
                                0 <= j < outs@.len() implies (exists|t: int|
                                0 <= t < msgtarget@.len() && notice_delivery(
                                    *server_state,
                                    client_id,
                                    uspec,
                                    msgtarget@[t],
                                    message@,
                                    #[trigger] outs@[j],
                                )) by {
                                if j < outs@.len() - 1 {
                                    assert(outs@[j] == prev[j]);
                                } else {
                                    assert(notice_delivery(
                                        *server_state,
                                        client_id,
                                        uspec,
                                        msgtarget@[i as int],
                                        message@,
                                        outs@[j],
                                    ));
                                }
                            }
                        }
                    },
                    None => {},
                }
            },
            _ => {},
        }
        i = i + 1;
    }
    proof {
        assert(notice_outputs_ok(
            *server_state,
            client_id,
            uspec,
            msgtarget@,
            message@,
            outs@,
        ));
    }
    Ok((UserStatus::Active, outs))
}

/// The unknown-command fallback: 421 naming the leading word.
pub fn handle_unknown_command(
    command: String,
    client_id: ClientId,
    server_state: &ServerState,
    server_name: &str,
) -> (r: (UserStatus, Vec<Outbound>))
    requires
        server_state.users_ok(),
    ensures
        r.0 == standing_status(*server_state, client_id),
        r.1@.len() == 1,
        is_direct_line(
            r.1@[0],
            client_id,
            crate::replies::err_unknown_command_text(
                server_name@,
                display_nick_of(*server_state, client_id),
                command@,
            ),
        ),
{
    let nick = Nickname(display_nick(server_state, client_id));
    let reply = IrcReply::ErrUnknownCommand { nick: &nick, command: command.as_str() };
    let line = reply.format(server_name);
    let mut outs: Vec<Outbound> = Vec::new();
    outs.push(Outbound::Direct { to: client_id, message: DirectIrcMessage::new(line) });
    let registered = match server_state.get_user_state_from_client_id(&client_id) {
        Some(u) => u.user.registered,
        None => false,
    };
    if registered {
        (UserStatus::Active, outs)
    } else {
        (UserStatus::Handshaking, outs)
    }
}

/// Message sending commands.
impl crate::messaging::IrcMessageSending {
    /// Handles a message sending line, or refuses one its grammar does not
    /// know.
    pub fn handle_command(
        request: &str,
        client_id: ClientId,
        server_state: &mut ServerState,
        server_name: &str,
    ) -> (r: Result<(UserStatus, Vec<Outbound>), InternalIrcError>)
        requires
            old(server_state).wf(),
        ensures
            final(server_state).wf(),
            *final(server_state) == *old(server_state),
            crate::messaging::privmsg_parse(request@) is Some ==> !(r matches Err(
                InternalIrcError::InvalidCommand,
            )),
            (crate::messaging::privmsg_parse(request@) is None
                && crate::messaging::notice_parse(request@) is Some) ==> !(r matches Err(
                InternalIrcError::InvalidCommand,
            )),
            (crate::messaging::privmsg_parse(request@) is None
                && crate::messaging::notice_parse(request@) is None) ==> (if crate::grammar::match_nocase_at(
                request@,
                0,
                "PRIVMSG"@,
            ) {
                // a PRIVMSG without its parameters lacks a recipient: 411
                r matches Ok(p) && p.0 == standing_status(*old(server_state), client_id)
                    && p.1@.len() == 1 && is_direct_line(
                    p.1@[0],
                    client_id,
                    crate::replies::err_no_recipient_text(
                        server_name@,
                        display_nick_of(*old(server_state), client_id),
                        "PRIVMSG"@,
                    ),
                )
            } else if crate::grammar::match_nocase_at(request@, 0, "NOTICE"@) {
                // a malformed NOTICE draws no reply of any kind
                r matches Ok(p) && p.1@.len() == 0
            } else {
                r == Err::<(UserStatus, Vec<Outbound>), InternalIrcError>(
                    InternalIrcError::InvalidCommand,
                )
            }),
    {
        if let Some((_rest, cmd)) = crate::messaging::IrcMessageSending::irc_command_parser(
            request,
        ) {
            match cmd {
                crate::messaging::IrcMessageSending::PRIVMSG(target_text, text) => {
                    let targets = crate::target::parse_targets(target_text.as_str());
                    return handle_privmsg(targets, text, client_id, server_state, server_name);
                },
                _ => {
                    return Err(InternalIrcError::InvalidCommand);
                },
            }
        }
        if let Some((_rest, cmd)) = crate::messaging::valid_notice_message_parser(request) {
            match cmd {
                crate::messaging::IrcMessageSending::NOTICE(target_text, text) => {
                    let targets = crate::target::parse_targets(target_text.as_str());
                    return handle_notice(targets, text, client_id, server_state);
                },
                _ => {
                    return Err(InternalIrcError::InvalidCommand);
                },
            }
        }
        proof {
            reveal_strlit("PRIVMSG");
            reveal_strlit("NOTICE");
        }
        if crate::grammar::tag_nocase_at(request, 0, "PRIVMSG") {
            let nick = Nickname(display_nick(server_state, client_id));
            let reply = IrcReply::ErrNoRecipient { nick: &nick, command: "PRIVMSG" };
            let line = reply.format(server_name);
            let mut outs: Vec<Outbound> = Vec::new();
            outs.push(Outbound::Direct { to: client_id, message: DirectIrcMessage::new(line) });
            let registered = match server_state.get_user_state_from_client_id(&client_id) {
                Some(u) => u.user.registered,
                None => false,
            };
            if registered {
                return Ok((UserStatus::Active, outs));
            }
            return Ok((UserStatus::Handshaking, outs));
        }
        if crate::grammar::tag_nocase_at(request, 0, "NOTICE") {
            return Ok((UserStatus::Active, Vec::new()));
        }
        Err(InternalIrcError::InvalidCommand)
    }
}

/// Miscellaneous commands.
impl crate::miscellanneous::IrcMiscellaneousMessages {
    /// Handles PING, or refuses a line its grammar does not know.
    pub fn handle_command(
        request: &str,
        client_id: ClientId,
        server_name: &str,
    ) -> (r: Result<(UserStatus, Vec<Outbound>), InternalIrcError>)
        ensures
            match crate::miscellanneous::ping_parse(request@) {
                Some(q) => r matches Ok(p) && p.0 == UserStatus::Active && p.1@.len() == 1
                    && is_direct_line(
                    p.1@[0],
                    client_id,
                    crate::replies::pong_text(server_name@, q.1[0]),
                ),
                None => r == Err::<(UserStatus, Vec<Outbound>), InternalIrcError>(
                    InternalIrcError::InvalidCommand,
                ),
            },
    {
        if let Some((_rest, cmd)) = crate::miscellanneous::IrcMiscellaneousMessages::irc_command_parser(
            request,
        ) {
            match cmd {
                crate::miscellanneous::IrcMiscellaneousMessages::PING(servers) => {
                    if servers.len() >= 1 {
                        let (st, outs) = handle_ping(servers, client_id, server_name);
                        return Ok((st, outs));
                    }
                    return Err(InternalIrcError::InvalidCommand);
                },
                _ => {
                    return Err(InternalIrcError::InvalidCommand);
                },
            }
        }
        Err(InternalIrcError::InvalidCommand)
    }
}

/// Capability negotiation.
impl crate::pre_registration::IrcCapPreRegistration {
    /// Handles CAP LS, CAP LIST and CAP END.
    pub fn handle_command(
        request: &str,
        client_id: ClientId,
        server_state: &ServerState,
        server_name: &str,
    ) -> (r: Result<(UserStatus, Vec<Outbound>), InternalIrcError>)
        requires
            server_state.wf(),
        ensures
            match crate::pre_registration::cap_parse(request@) {
                Some(q) => match q.1 {
                    crate::pre_registration::CapParse::Ls => r matches Ok(p) && p.0
                        == standing_status(*server_state, client_id) && p.1@.len() == 1
                        && is_direct_line(
                        p.1@[0],
                        client_id,
                        crate::replies::cap_ls_text(
                            server_name@,
                            display_nick_of(*server_state, client_id),
                            Seq::<char>::empty(),
                        ),
                    ),
                    crate::pre_registration::CapParse::List => r matches Ok(p) && p.0
                        == standing_status(*server_state, client_id) && p.1@.len() == 1
                        && is_direct_line(
                        p.1@[0],
                        client_id,
                        crate::replies::cap_list_text(
                            server_name@,
                            display_nick_of(*server_state, client_id),
                            Seq::<char>::empty(),
                        ),
                    ),
                    crate::pre_registration::CapParse::End => r matches Ok(p) && p.0
                        == UserStatus::Handshaking && p.1@.len() == 0,
                },
                None => r == Err::<(UserStatus, Vec<Outbound>), InternalIrcError>(
                    InternalIrcError::InvalidCommand,
                ),
            },
    {
        if let Some((_rest, cmd)) = crate::pre_registration::IrcCapPreRegistration::irc_cap_parser(
            request,
        ) {
            match cmd {
                crate::pre_registration::IrcCapPreRegistration::LS => {
                    let (st, outs) = handle_cap_ls_response(client_id, server_state, server_name);
                    return Ok((st, outs));
                },
                crate::pre_registration::IrcCapPreRegistration::LIST => {
                    let (st, outs) = handle_cap_list_response(
                        client_id,
                        server_state,
                        server_name,
                    );
                    return Ok((st, outs));
                },
                crate::pre_registration::IrcCapPreRegistration::END => {
                    match handle_cap_end_response() {
                        Ok(st) => {
                            return Ok((st, Vec::new()));
                        },
                        Err(e) => {
                            return Err(e);
                        },
                    }
                },
                _ => {
                    return Err(InternalIrcError::InvalidCommand);
                },
            }
        }
        Err(InternalIrcError::InvalidCommand)
    }
}

/// Connection registration commands.
impl crate::registration::IrcConnectionRegistration {
    /// Handles NICK, USER, MODE, QUIT and PASS.
    pub fn handle_command(
        request: &str,
        client_id: ClientId,
        server_state: &mut ServerState,
        server_name: &str,
    ) -> (r: Result<(UserStatus, Vec<Outbound>), InternalIrcError>)
        requires
            old(server_state).wf(),
            old(server_state).has_user(client_id),
        ensures
            final(server_state).wf(),
            (r matches Err(InternalIrcError::InvalidCommand)) ==> *final(server_state) == *old(
                server_state,
            ),
            match crate::registration::registration_parse(request@) {
                None => r == Err::<(UserStatus, Vec<Outbound>), InternalIrcError>(
                    InternalIrcError::InvalidCommand,
                ),
                Some(q) => match q.1 {
                    crate::registration::RegParse::Nick(_) => !(r matches Err(
                        InternalIrcError::InvalidCommand,
                    )),
                    crate::registration::RegParse::User2812(_, _, _) => !(r matches Err(
                        InternalIrcError::InvalidCommand,
                    )),
                    crate::registration::RegParse::User1459(_, _) => !(r matches Err(
                        InternalIrcError::InvalidCommand,
                    )),
                    crate::registration::RegParse::Mode(_, _) => !(r matches Err(
                        InternalIrcError::InvalidCommand,
                    )),
                    crate::registration::RegParse::Quit(m) => (r matches Ok(p) && p.0 matches
                        UserStatus::Leaving(rr) && (match (rr, m) {
                        (Some(a), Some(b)) => a@ == b,
                        (None, None) => true,
                        _ => false,
                    })),
                    crate::registration::RegParse::Pass(_) => r matches Ok(p) && p.0
                        == UserStatus::Handshaking && p.1@.len() == 0,
                    _ => r == Err::<(UserStatus, Vec<Outbound>), InternalIrcError>(
                        InternalIrcError::InvalidCommand,
                    ),
                },
            },
    {
        if let Some((_rest, cmd)) = crate::registration::IrcConnectionRegistration::irc_command_parser(
            request,
        ) {
            match cmd {
                crate::registration::IrcConnectionRegistration::NICK(n) => {
                    return handle_nick_registration(
                        Nickname(n),
                        client_id,
                        server_state,
                        server_name,
                    );
                },
                crate::registration::IrcConnectionRegistration::USER_RFC_2812(u, m, rn) => {
                    return handle_user_registration(
                        Username(u),
                        m,
                        crate::types::Realname(rn),
                        client_id,
                        server_state,
                        server_name,
                    );
                },
                crate::registration::IrcConnectionRegistration::USER_RFC_1459(u, rn) => {
                    return handle_user_registration(
                        Username(u),
                        0u8,
                        crate::types::Realname(rn),
                        client_id,
                        server_state,
                        server_name,
                    );
                },
                crate::registration::IrcConnectionRegistration::MODE(n, ms) => {
                    return handle_mode_registration(
                        Nickname(n),
                        ms,
                        client_id,
                        server_state,
                        server_name,
                    );
                },
                crate::registration::IrcConnectionRegistration::QUIT(reason) => {
                    return handle_quit_registration(reason, client_id, server_state);
                },
                crate::registration::IrcConnectionRegistration::PASS(_) => {
                    // accepted silently before registration
                    return Ok((UserStatus::Handshaking, Vec::new()));
                },
                _ => {
                    return Err(InternalIrcError::InvalidCommand);
                },
            }
        }
        Err(InternalIrcError::InvalidCommand)
    }
}

/// Channel operations.
impl crate::channel_ops::IrcChannelOperation {
    /// Handles JOIN, the special JOIN 0, and PART.
    pub fn handle_command(
        request: &str,
        client_id: ClientId,
        server_state: &mut ServerState,
        server_name: &str,
    ) -> (r: Result<(UserStatus, Vec<Outbound>), InternalIrcError>)
        requires
            old(server_state).wf(),
            old(server_state).has_user(client_id),
        ensures
            final(server_state).wf(),
            (r matches Err(InternalIrcError::InvalidCommand)) ==> *final(server_state) == *old(
                server_state,
            ),
            match crate::channel_ops::channel_op_parse(request@) {
                None => r == Err::<(UserStatus, Vec<Outbound>), InternalIrcError>(
                    InternalIrcError::InvalidCommand,
                ),
                Some(q) => match q.1 {
                    crate::channel_ops::ChanParse::Join(_, _) => !(r matches Err(
                        InternalIrcError::InvalidCommand,
                    )),
                    crate::channel_ops::ChanParse::Leave => !(r matches Err(
                        InternalIrcError::InvalidCommand,
                    )),
                    crate::channel_ops::ChanParse::Part(_, _) => !(r matches Err(
                        InternalIrcError::InvalidCommand,
                    )),
                    _ => r == Err::<(UserStatus, Vec<Outbound>), InternalIrcError>(
                        InternalIrcError::InvalidCommand,
                    ),
                },
            },
    {
        if let Some((_rest, cmd)) = crate::channel_ops::IrcChannelOperation::irc_command_parser(
            request,
        ) {
            match cmd {
                crate::channel_ops::IrcChannelOperation::JOIN(chans, keys) => {
                    let pairs = crate::target::pair_channels_keys(chans, keys);
                    return handle_join_channel(pairs, client_id, server_state, server_name);
                },
                crate::channel_ops::IrcChannelOperation::LEAVE => {
                    let snap = match server_state.get_user_state_from_client_id(&client_id) {
                        Some(u) => u,
                        None => {
                            return Err(InternalIrcError::ServerStateError("session lost"));
                        },
                    };
                    let mut names: Vec<ChannelName> = Vec::new();
                    let kn = snap.user.member_of.len();
                    let mut i: usize = 0;
                    while i < kn
                        invariant
                            0 <= i <= kn,
                            kn == snap.user.member_of@.len(),
                        decreases kn - i,
                    {
                        names.push(ChannelName(snap.user.member_of[i].clone()));
                        i = i + 1;
                    }
                    return handle_part_channel(
                        names,
                        None,
                        client_id,
                        server_state,
                        server_name,
                    );
                },
                crate::channel_ops::IrcChannelOperation::PART(chans, msg) => {
                    let mut names: Vec<ChannelName> = Vec::new();
                    let kn = chans.len();
                    let mut i: usize = 0;
                    while i < kn
                        invariant
                            0 <= i <= kn,
                            kn == chans@.len(),
                        decreases kn - i,
                    {
                        names.push(ChannelName(chans[i].clone()));
                        i = i + 1;
                    }
                    return handle_part_channel(
                        names,
                        msg,
                        client_id,
                        server_state,
                        server_name,
                    );
                },
                _ => {
                    // recognized but not implemented: the fallback answers 421
                    return Err(InternalIrcError::InvalidCommand);
                },
            }
        }
        Err(InternalIrcError::InvalidCommand)
    }
}

/// A channel command without its parameters.
impl crate::channel_ops::IrcInvalidChannelOperation {
    /// Answers a bare JOIN with 461.
    pub fn handle_command(
        request: &str,
        client_id: ClientId,
        server_state: &ServerState,
        server_name: &str,
    ) -> (r: Result<(UserStatus, Vec<Outbound>), InternalIrcError>)
        requires
            server_state.wf(),
        ensures
            match crate::channel_ops::invalid_join_parse(request@) {
                Some(_) => r matches Ok(p) && p.0 == UserStatus::Active && p.1@.len() == 1
                    && is_direct_line(
                    p.1@[0],
                    client_id,
                    crate::replies::err_need_more_params_text(
                        server_name@,
                        display_nick_of(*server_state, client_id),
                        "JOIN"@,
                    ),
                ),
                None => r == Err::<(UserStatus, Vec<Outbound>), InternalIrcError>(
                    InternalIrcError::InvalidCommand,
                ),
            },
    {
        if let Some((_rest, inv)) = crate::channel_ops::IrcInvalidChannelOperation::irc_command_parser(
            request,
        ) {
            let (st, outs) = handle_invalid_join_channel(
                inv.0,
                client_id,
                server_state,
                server_name,
            );
            return Ok((st, outs));
        }
        Err(InternalIrcError::InvalidCommand)
    }
}

/// The fallback for lines no grammar knows.
impl crate::miscellanneous::IrcUnknownCommand {
    /// Answers with 421 naming the leading word.
    pub fn handle_command(
        request: &str,
        client_id: ClientId,
        server_state: &ServerState,
        server_name: &str,
    ) -> (r: Result<(UserStatus, Vec<Outbound>), InternalIrcError>)
        requires
            server_state.wf(),
        ensures
            r matches Ok(p) && p.0 == standing_status(*server_state, client_id) && p.1@.len()
                == 1 && is_direct_line(
                p.1@[0],
                client_id,
                crate::replies::err_unknown_command_text(
                    server_name@,
                    display_nick_of(*server_state, client_id),
                    crate::miscellanneous::unknown_parse(request@).1,
                ),
            ),
    {
        let (_rest, unknown) = crate::miscellanneous::IrcUnknownCommand::irc_command_parser(
            request,
        );
        let (st, outs) = handle_unknown_command(unknown.0, client_id, server_state, server_name);
        Ok((st, outs))
    }
}

/// Dispatches one request line: the grammars are tried in a fixed order
/// and the first that recognizes the line handles it; a line none knows is
/// answered with 421.
pub fn handle_request(
    request: &str,
    client_id: ClientId,
    server_state: &mut ServerState,
    server_name: &str,
) -> (r: Result<(UserStatus, Vec<Outbound>), InternalIrcError>)
    requires
        old(server_state).wf(),
        old(server_state).has_user(client_id),
    ensures
        final(server_state).wf(),
        !(r matches Err(InternalIrcError::InvalidCommand)),
        // PING is answered at once with the PONG of its first server
        (crate::messaging::privmsg_parse(request@) is None
            && crate::messaging::notice_parse(request@) is None
            && !crate::grammar::match_nocase_at(request@, 0, "PRIVMSG"@)
            && !crate::grammar::match_nocase_at(request@, 0, "NOTICE"@)
            && crate::miscellanneous::ping_parse(request@) is Some) ==> ({
            let q = crate::miscellanneous::ping_parse(request@).unwrap();
            r matches Ok(p) && p.0 == UserStatus::Active && p.1@.len() == 1 && is_direct_line(
                p.1@[0],
                client_id,
                crate::replies::pong_text(server_name@, q.1[0]),
            )
        }),
        // a line no grammar knows is answered with 421 naming its first word
        (crate::messaging::privmsg_parse(request@) is None
            && crate::messaging::notice_parse(request@) is None
            && !crate::grammar::match_nocase_at(request@, 0, "PRIVMSG"@)
            && !crate::grammar::match_nocase_at(request@, 0, "NOTICE"@)
            && crate::miscellanneous::ping_parse(request@) is None
            && crate::pre_registration::cap_parse(request@) is None
            && crate::registration::registration_parse(request@) is None
            && crate::channel_ops::channel_op_parse(request@) is None
            && crate::channel_ops::invalid_join_parse(request@) is None) ==> ({
            &&& *final(server_state) == *old(server_state)
            &&& (r matches Ok(p) && p.0 == standing_status(*old(server_state), client_id)
                && p.1@.len() == 1 && is_direct_line(
                p.1@[0],
                client_id,
                crate::replies::err_unknown_command_text(
                    server_name@,
                    display_nick_of(*old(server_state), client_id),
                    crate::miscellanneous::unknown_parse(request@).1,
                ),
            ))
        }),
{
    match crate::messaging::IrcMessageSending::handle_command(
        request,
        client_id,
        server_state,
        server_name,
    ) {
        Ok(p) => {
            return Ok(p);
        },
        Err(InternalIrcError::InvalidCommand) => {},
        Err(e) => {
            return Err(e);
        },
    }
    match crate::miscellanneous::IrcMiscellaneousMessages::handle_command(
        request,
        client_id,
        server_name,
    ) {
        Ok(p) => {
            return Ok(p);
        },
        Err(InternalIrcError::InvalidCommand) => {},
        Err(e) => {
            return Err(e);
        },
    }
    match crate::pre_registration::IrcCapPreRegistration::handle_command(
        request,
        client_id,
        server_state,
        server_name,
    ) {
        Ok(p) => {
            return Ok(p);
        },
        Err(InternalIrcError::InvalidCommand) => {},
        Err(e) => {
            return Err(e);
        },
    }
    match crate::registration::IrcConnectionRegistration::handle_command(
        request,
        client_id,
        server_state,
        server_name,
    ) {
        Ok(p) => {
            return Ok(p);
        },
        Err(InternalIrcError::InvalidCommand) => {},
        Err(e) => {
            return Err(e);
        },
    }
    match crate::channel_ops::IrcChannelOperation::handle_command(
        request,
        client_id,
        server_state,
        server_name,
    ) {
        Ok(p) => {
            return Ok(p);
        },
        Err(InternalIrcError::InvalidCommand) => {},
        Err(e) => {
            return Err(e);
        },
    }
    match crate::channel_ops::IrcInvalidChannelOperation::handle_command(
        request,
        client_id,
        server_state,
        server_name,
    ) {
        Ok(p) => {
            return Ok(p);
        },
        Err(InternalIrcError::InvalidCommand) => {},
        Err(e) => {
            return Err(e);
        },
    }
    crate::miscellanneous::IrcUnknownCommand::handle_command(
        request,
        client_id,
        server_state,
        server_name,
    )
}

} // verus!
