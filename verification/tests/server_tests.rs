use irc_server::handlers::handle_request;
use irc_server::message_models::Outbound;
use irc_server::server_state::ServerState;
use irc_server::user_state::{UserState, UserStatus};
use irc_server::ClientId;
use irc_server::channels_models::IrcChannel;
use irc_server::message_models::DirectIrcMessage;
use irc_server::replies::IrcReply;
use irc_server::types::{ChannelName, Topic};

const SRV: &str = "irc.example.net";

fn connect(state: &mut ServerState, host: &str) -> ClientId {
    let session = UserState::new(ClientId(0), host.to_owned());
    state.add_connecting_user(session).unwrap()
}

fn send(state: &mut ServerState, id: ClientId, line: &str) -> (UserStatus, Vec<Outbound>) {
    handle_request(line, id, state, SRV).unwrap()
}

fn direct_lines(outs: &[Outbound]) -> Vec<String> {
    outs.iter()
        .filter_map(|o| match o {
            Outbound::Direct { message, .. } => Some(message.raw_line.clone()),
            _ => None,
        })
        .collect()
}

#[test]
fn welcome_burst() {
    let mut state = ServerState::new();
    let a = connect(&mut state, "host1");
    let (st, outs) = send(&mut state, a, "NICK alice");
    assert_eq!(st, UserStatus::Handshaking);
    assert!(outs.is_empty());
    let (st, outs) = send(&mut state, a, "USER alice 0 * :Alice A");
    assert_eq!(st, UserStatus::Active);
    let lines = direct_lines(&outs);
    assert_eq!(
        lines,
        vec![format!(
            ":{SRV} 001 alice :Welcome to the Internet Relay Network alice!alice@host1\r\n"
        )]
    );
}

#[test]
fn join_and_see_self() {
    let mut state = ServerState::new();
    let a = connect(&mut state, "host1");
    send(&mut state, a, "NICK alice");
    send(&mut state, a, "USER alice 0 * :Alice A");
    let (_st, outs) = send(&mut state, a, "JOIN #chat");
    assert_eq!(outs.len(), 5);
    match &outs[0] {
        Outbound::Subscribe { channel } => assert_eq!(channel.0, "#chat"),
        other => panic!("expected a subscription first, got {other:?}"),
    }
    match &outs[1] {
        Outbound::Broadcast { channel, message } => {
            assert_eq!(channel.0, "#chat");
            assert_eq!(message.raw_line, ":alice!alice@host1 JOIN :#chat\r\n");
        }
        other => panic!("expected the JOIN relay, got {other:?}"),
    }
    let lines = direct_lines(&outs);
    assert_eq!(
        lines,
        vec![
            format!(":{SRV} 331 alice #chat :No topic is set\r\n"),
            format!(":{SRV} 353 alice = #chat :@alice\r\n"),
            format!(":{SRV} 366 alice #chat :End of NAMES list\r\n"),
        ]
    );
}

#[test]
fn nick_collision_rejected_at_registration() {
    let mut state = ServerState::new();
    let a = connect(&mut state, "host1");
    let b = connect(&mut state, "host2");
    send(&mut state, a, "NICK bob");
    // the second NICK before USER does not collide yet
    let (_st, outs) = send(&mut state, b, "NICK bob");
    assert!(outs.is_empty());
    // the first registers
    let (st, _outs) = send(&mut state, a, "USER bob 0 * :Bob One");
    assert_eq!(st, UserStatus::Active);
    // the second is refused with 433 at USER time
    let (st, outs) = send(&mut state, b, "USER bob 0 * :Bob Two");
    assert_eq!(st, UserStatus::Handshaking);
    let lines = direct_lines(&outs);
    assert_eq!(
        lines,
        vec![format!(":{SRV} 433 * bob :Nickname is already in use\r\n")]
    );
}

#[test]
fn channel_broadcast_excludes_sender() {
    let mut state = ServerState::new();
    let a = connect(&mut state, "host1");
    let b = connect(&mut state, "host2");
    send(&mut state, a, "NICK alice");
    send(&mut state, a, "USER alice 0 * :Alice A");
    send(&mut state, b, "NICK bob");
    send(&mut state, b, "USER bob 0 * :Bob B");
    send(&mut state, a, "JOIN #c");
    send(&mut state, b, "JOIN #c");
    let (_st, outs) = send(&mut state, a, "PRIVMSG #c :hi");
    assert_eq!(outs.len(), 1);
    match &outs[0] {
        Outbound::Broadcast { channel, message } => {
            assert_eq!(channel.0, "#c");
            assert_eq!(message.raw_line, ":alice!alice@host1 PRIVMSG #c :hi\r\n");
            // the sender mark drives echo suppression in the fan-out
            assert_eq!(message.sender, Some(a));
        }
        other => panic!("expected a channel broadcast, got {other:?}"),
    }
}

#[test]
fn direct_message_to_nickname() {
    let mut state = ServerState::new();
    let a = connect(&mut state, "host1");
    let b = connect(&mut state, "host2");
    send(&mut state, a, "NICK alice");
    send(&mut state, a, "USER alice 0 * :Alice A");
    send(&mut state, b, "NICK bob");
    send(&mut state, b, "USER bob 0 * :Bob B");
    let (_st, outs) = send(&mut state, a, "PRIVMSG bob :hey");
    assert_eq!(outs.len(), 1);
    match &outs[0] {
        Outbound::Direct { to, message } => {
            assert_eq!(*to, b);
            assert_eq!(message.raw_line, ":alice!alice@host1 PRIVMSG bob :hey\r\n");
        }
        other => panic!("expected a direct delivery, got {other:?}"),
    }
}

#[test]
fn quit_fan_out_once_per_neighbour() {
    let mut state = ServerState::new();
    let a = connect(&mut state, "host1");
    let b = connect(&mut state, "host2");
    let c = connect(&mut state, "host3");
    send(&mut state, a, "NICK alice");
    send(&mut state, a, "USER alice 0 * :Alice A");
    send(&mut state, b, "NICK bob");
    send(&mut state, b, "USER bob 0 * :Bob B");
    send(&mut state, c, "NICK carol");
    send(&mut state, c, "USER carol 0 * :Carol C");
    send(&mut state, a, "JOIN #x");
    send(&mut state, b, "JOIN #x");
    send(&mut state, a, "JOIN #y");
    send(&mut state, c, "JOIN #y");
    let (st, outs) = send(&mut state, a, "QUIT :bye");
    assert!(matches!(st, UserStatus::Leaving(Some(r)) if r == "bye"));
    let mut recipients: Vec<ClientId> = Vec::new();
    for o in &outs {
        match o {
            Outbound::Direct { to, message } => {
                assert_eq!(message.raw_line, ":alice!alice@host1 QUIT :bye\r\n");
                assert!(!recipients.contains(to), "a neighbour heard the QUIT twice");
                recipients.push(*to);
            }
            other => panic!("expected direct QUIT relays, got {other:?}"),
        }
    }
    assert_eq!(recipients.len(), 2);
    assert!(recipients.contains(&b));
    assert!(recipients.contains(&c));
    // alice is gone; both channels remain with their other member
    assert!(state.get_user_state_from_client_id(&a).is_none());
    assert!(state.channels_exists(&irc_server::types::ChannelName("#x".to_owned())));
    assert!(state.channels_exists(&irc_server::types::ChannelName("#y".to_owned())));
}

#[test]
fn second_join_changes_nothing() {
    let mut state = ServerState::new();
    let a = connect(&mut state, "host1");
    send(&mut state, a, "NICK alice");
    send(&mut state, a, "USER alice 0 * :Alice A");
    send(&mut state, a, "JOIN #x");
    let before = state
        .get_channel(&irc_server::types::ChannelName("#x".to_owned()))
        .unwrap()
        .members
        .len();
    let (_st, outs) = send(&mut state, a, "JOIN #x");
    assert!(outs.is_empty(), "a second JOIN must emit no relay");
    let after = state
        .get_channel(&irc_server::types::ChannelName("#x".to_owned()))
        .unwrap()
        .members
        .len();
    assert_eq!(before, after);
}

#[test]
fn part_then_join_loses_operator_among_others() {
    let mut state = ServerState::new();
    let a = connect(&mut state, "host1");
    let b = connect(&mut state, "host2");
    send(&mut state, a, "NICK alice");
    send(&mut state, a, "USER alice 0 * :Alice A");
    send(&mut state, b, "NICK bob");
    send(&mut state, b, "USER bob 0 * :Bob B");
    send(&mut state, a, "JOIN #x");
    send(&mut state, b, "JOIN #x");
    send(&mut state, a, "PART #x");
    send(&mut state, a, "JOIN #x");
    let chan = state
        .get_channel(&irc_server::types::ChannelName("#x".to_owned()))
        .unwrap();
    assert!(chan.members.contains(&a));
    assert!(
        !chan.operators.contains(&a),
        "rejoining a surviving channel grants no operator flag"
    );
}

#[test]
fn part_then_join_recreates_as_operator_when_sole() {
    let mut state = ServerState::new();
    let a = connect(&mut state, "host1");
    send(&mut state, a, "NICK alice");
    send(&mut state, a, "USER alice 0 * :Alice A");
    send(&mut state, a, "JOIN #x");
    send(&mut state, a, "PART #x");
    assert!(!state.channels_exists(&irc_server::types::ChannelName("#x".to_owned())));
    send(&mut state, a, "JOIN #x");
    let chan = state
        .get_channel(&irc_server::types::ChannelName("#x".to_owned()))
        .unwrap();
    assert!(chan.operators.contains(&a), "the recreator is operator again");
}

#[test]
fn unknown_command_answered_with_421() {
    let mut state = ServerState::new();
    let a = connect(&mut state, "host1");
    send(&mut state, a, "NICK alice");
    send(&mut state, a, "USER alice 0 * :Alice A");
    let (_st, outs) = send(&mut state, a, "BOGUS stuff");
    let lines = direct_lines(&outs);
    assert_eq!(lines, vec![format!(":{SRV} 421 alice BOGUS :Unknown command\r\n")]);
}

#[test]
fn bare_join_answered_with_461() {
    let mut state = ServerState::new();
    let a = connect(&mut state, "host1");
    send(&mut state, a, "NICK alice");
    send(&mut state, a, "USER alice 0 * :Alice A");
    let (_st, outs) = send(&mut state, a, "JOIN");
    let lines = direct_lines(&outs);
    assert_eq!(
        lines,
        vec![format!(":{SRV} 461 alice JOIN :Not enough parameters\r\n")]
    );
}

#[test]
fn ping_pong_and_cap() {
    let mut state = ServerState::new();
    let a = connect(&mut state, "host1");
    let (_st, outs) = send(&mut state, a, "PING tolsun.oulu.fi");
    let lines = direct_lines(&outs);
    assert_eq!(lines, vec![format!(":{SRV} PONG :tolsun.oulu.fi\r\n")]);
    let (st, outs) = send(&mut state, a, "CAP LS 302");
    assert_eq!(st, UserStatus::Handshaking);
    let lines = direct_lines(&outs);
    assert_eq!(lines, vec![format!(":{SRV} CAP * LS :\r\n")]);
    let (st, outs) = send(&mut state, a, "CAP END");
    assert_eq!(st, UserStatus::Handshaking);
    assert!(outs.is_empty());
}

#[test]
fn user_modes_apply_with_guard_rails() {
    let mut state = ServerState::new();
    let a = connect(&mut state, "host1");
    send(&mut state, a, "NICK alice");
    send(&mut state, a, "USER alice 12 * :Alice A");
    // the USER bitmask set w (bit 2) and i (bit 3)
    let snap = state.get_user_state_from_client_id(&a).unwrap();
    assert!(snap.user.modes.wallops);
    assert!(snap.user.modes.invisible);
    // -w takes effect; +o is silently ignored
    let (_st, outs) = send(&mut state, a, "MODE alice -w+o");
    assert!(outs.is_empty());
    let snap = state.get_user_state_from_client_id(&a).unwrap();
    assert!(!snap.user.modes.wallops);
    assert!(!snap.user.modes.oper);
    // another user's nickname is refused with 502
    let (_st, outs) = send(&mut state, a, "MODE bob +i");
    let lines = direct_lines(&outs);
    assert_eq!(
        lines,
        vec![format!(":{SRV} 502 bob :Cannot change mode for other users\r\n")]
    );
}

#[test]
fn join_before_registration_is_refused() {
    let mut state = ServerState::new();
    let a = connect(&mut state, "host1");
    let (_st, outs) = send(&mut state, a, "JOIN #x");
    let lines = direct_lines(&outs);
    assert_eq!(
        lines,
        vec![format!(":{SRV} 451 * :You have not registered\r\n")]
    );
}

#[test]
fn crlf_is_appended_once() {
    let m = DirectIrcMessage::new("hello".to_owned());
    assert_eq!(m.raw_line, "hello\r\n");
    let m = DirectIrcMessage::new("hello\r\n".to_owned());
    assert_eq!(m.raw_line, "hello\r\n");
    let m = DirectIrcMessage::new_with_sender("x".to_owned(), ClientId(7));
    assert_eq!(m.sender, Some(ClientId(7)));
    assert_eq!(m.raw_line, "x\r\n");
}

#[test]
fn ban_list_membership() {
    let mut chan = IrcChannel::new(ChannelName("#x".to_owned()));
    assert!(!chan.is_banned(ClientId(4)));
    assert!(chan.add_ban_user(ClientId(4)));
    assert!(chan.is_banned(ClientId(4)));
    assert!(!chan.add_ban_user(ClientId(4)));
}

#[test]
fn notice_and_privmsg_edge_replies() {
    let mut state = ServerState::new();
    let a = connect(&mut state, "host1");
    let b = connect(&mut state, "host2");
    send(&mut state, a, "NICK alice");
    send(&mut state, a, "USER alice 0 * :Alice A");
    send(&mut state, b, "NICK bob");
    send(&mut state, b, "USER bob 0 * :Bob B");
    // a notice to a bound nickname is delivered with the NOTICE verb
    let (_st, outs) = send(&mut state, a, "NOTICE bob :psst");
    assert_eq!(outs.len(), 1);
    match &outs[0] {
        Outbound::Direct { to, message } => {
            assert_eq!(*to, b);
            assert_eq!(message.raw_line, ":alice!alice@host1 NOTICE bob :psst\r\n");
        }
        other => panic!("expected a direct notice, got {other:?}"),
    }
    // a notice to nobody draws no reply of any kind
    let (_st, outs) = send(&mut state, a, "NOTICE carol :psst");
    assert!(outs.is_empty());
    // an empty PRIVMSG text is refused with 412
    let (_st, outs) = send(&mut state, a, "PRIVMSG bob :");
    let lines = direct_lines(&outs);
    assert_eq!(lines, vec![format!(":{SRV} 412 alice :No text to send\r\n")]);
    // a PRIVMSG without parameters lacks a recipient: 411
    let (_st, outs) = send(&mut state, a, "PRIVMSG");
    let lines = direct_lines(&outs);
    assert_eq!(
        lines,
        vec![format!(":{SRV} 411 alice :No recipient given (PRIVMSG)\r\n")]
    );
    // a message to an unknown nickname names the failed target in its 401
    let (_st, outs) = send(&mut state, a, "PRIVMSG carol :hey");
    let lines = direct_lines(&outs);
    assert_eq!(
        lines,
        vec![format!(":{SRV} 401 alice carol :No such nick/channel\r\n")]
    );
}

#[test]
fn nick_rename_relay_skips_the_renamer() {
    let mut state = ServerState::new();
    let a = connect(&mut state, "host1");
    let b = connect(&mut state, "host2");
    send(&mut state, a, "NICK alice");
    send(&mut state, a, "USER alice 0 * :Alice A");
    send(&mut state, b, "NICK bob");
    send(&mut state, b, "USER bob 0 * :Bob B");
    send(&mut state, a, "JOIN #c");
    send(&mut state, b, "JOIN #c");
    let (_st, outs) = send(&mut state, a, "NICK alicia");
    assert_eq!(outs.len(), 1);
    match &outs[0] {
        Outbound::Direct { to, message } => {
            assert_eq!(*to, b, "only the neighbour hears the rename");
            assert_eq!(message.raw_line, ":alice!alice@host1 NICK :alicia\r\n");
        }
        other => panic!("expected the NICK relay, got {other:?}"),
    }
}

#[test]
fn list_reply_renders_numbers() {
    let chan = ChannelName("#c".to_owned());
    let topic = Topic("news".to_owned());
    let reply = IrcReply::List { channel: &chan, visible: 120, topic: &topic };
    assert_eq!(reply.format(SRV), format!(":{SRV} 322 #c 120 :news"));
}
