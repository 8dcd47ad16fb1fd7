//! The reply formatter: every outbound line the server produces, rendered
//! exactly as its specification text says.  Numeric replies carry the server
//! name prefix; message relays carry the sender's nick!user@host prefix.
//! No line carries its CRLF terminator; the writer appends it.

use vstd::prelude::*;

use crate::types::{ChannelName, Nickname, Topic, Username};

verus! {

/// The decimal rendering of a number, most significant digit first.
pub open spec fn dec_rep(n: nat) -> Seq<char>
    decreases n,
{
    if n < 10 {
        seq![dec_digit(n)]
    } else {
        dec_rep(n / 10) + seq![dec_digit(n % 10)]
    }
}

/// The character of one decimal digit.
pub open spec fn dec_digit(d: nat) -> char {
    if d == 0 { '0' } else if d == 1 { '1' } else if d == 2 { '2' } else if d == 3 { '3' }
    else if d == 4 { '4' } else if d == 5 { '5' } else if d == 6 { '6' } else if d == 7 { '7' }
    else if d == 8 { '8' } else { '9' }
}

fn digit_str(d: u32) -> (r: &'static str)
    requires
        d < 10,
    ensures
        r@ =~= seq![dec_digit(d as nat)],
{
    proof {
        reveal_strlit("0");
        reveal_strlit("1");
        reveal_strlit("2");
        reveal_strlit("3");
        reveal_strlit("4");
        reveal_strlit("5");
        reveal_strlit("6");
        reveal_strlit("7");
        reveal_strlit("8");
        reveal_strlit("9");
    }
    match d {
        0 => "0",
        1 => "1",
        2 => "2",
        3 => "3",
        4 => "4",
        5 => "5",
        6 => "6",
        7 => "7",
        8 => "8",
        _ => "9",
    }
}

/// Renders a number in decimal.
pub fn u32_dec(n: u32) -> (r: String)
    ensures
        r@ == dec_rep(n as nat),
    decreases n,
{
    if n < 10 {
        digit_str(n).to_owned()
    } else {
        let mut out = u32_dec(n / 10);
        out.append(digit_str(n % 10));
        out
    }
}


pub open spec fn pong_text(server: Seq<char>, destination: Seq<char>) -> Seq<char> {
    ":"@ + server + " PONG :"@ + destination
}

pub open spec fn cap_ls_text(server: Seq<char>, nick: Seq<char>, capabilities: Seq<char>) -> Seq<char> {
    ":"@ + server + " CAP "@ + nick + " LS :"@ + capabilities
}

pub open spec fn cap_list_text(server: Seq<char>, nick: Seq<char>, capabilities: Seq<char>) -> Seq<char> {
    ":"@ + server + " CAP "@ + nick + " LIST :"@ + capabilities
}

pub open spec fn welcome_text(server: Seq<char>, nick: Seq<char>, user: Seq<char>, host: Seq<char>) -> Seq<char> {
    ":"@ + server + " 001 "@ + nick + " :Welcome to the Internet Relay Network "@ + nick + "!"@ + user + "@"@ + host
}

pub open spec fn your_host_text(server: Seq<char>, servername: Seq<char>, version: Seq<char>) -> Seq<char> {
    ":"@ + server + " 002 :Your host is "@ + servername + ", running version "@ + version
}

pub open spec fn created_text(server: Seq<char>, date: Seq<char>) -> Seq<char> {
    ":"@ + server + " 003 :This server was created "@ + date
}

pub open spec fn my_info_text(server: Seq<char>, servername: Seq<char>, version: Seq<char>, modes: Seq<char>) -> Seq<char> {
    ":"@ + server + " 004 "@ + servername + " "@ + version + " "@ + modes
}

pub open spec fn err_nickname_in_use_text(server: Seq<char>, nick: Seq<char>, wanted: Seq<char>) -> Seq<char> {
    ":"@ + server + " 433 "@ + nick + " "@ + wanted + " :Nickname is already in use"@
}

pub open spec fn umode_is_text(server: Seq<char>, nick: Seq<char>, modes: Seq<char>) -> Seq<char> {
    ":"@ + server + " 221 "@ + nick + " :"@ + modes
}

pub open spec fn err_umode_unknown_flag_text(server: Seq<char>, nick: Seq<char>) -> Seq<char> {
    ":"@ + server + " 501 "@ + nick + " :Unknown MODE flag"@
}

pub open spec fn err_users_dont_match_text(server: Seq<char>, nick: Seq<char>) -> Seq<char> {
    ":"@ + server + " 502 "@ + nick + " :Cannot change mode for other users"@
}

pub open spec fn topic_text(server: Seq<char>, nick: Seq<char>, channel: Seq<char>, topic: Seq<char>) -> Seq<char> {
    ":"@ + server + " 332 "@ + nick + " "@ + channel + " :"@ + topic
}

pub open spec fn no_topic_text(server: Seq<char>, nick: Seq<char>, channel: Seq<char>) -> Seq<char> {
    ":"@ + server + " 331 "@ + nick + " "@ + channel + " :No topic is set"@
}

pub open spec fn names_text(server: Seq<char>, nick: Seq<char>, channel: Seq<char>, visibility: Seq<char>, names: Seq<char>) -> Seq<char> {
    ":"@ + server + " 353 "@ + nick + " "@ + visibility + " "@ + channel + " :"@ + names
}

pub open spec fn end_of_names_text(server: Seq<char>, nick: Seq<char>, channel: Seq<char>) -> Seq<char> {
    ":"@ + server + " 366 "@ + nick + " "@ + channel + " :End of NAMES list"@
}

pub open spec fn list_text(server: Seq<char>, channel: Seq<char>, visible: nat, topic: Seq<char>) -> Seq<char> {
    ":"@ + server + " 322 "@ + channel + " "@ + dec_rep(visible) + " :"@ + topic
}

pub open spec fn list_end_text(server: Seq<char>) -> Seq<char> {
    ":"@ + server + " 323 :End of LIST"@
}

pub open spec fn err_need_more_params_text(server: Seq<char>, nick: Seq<char>, command: Seq<char>) -> Seq<char> {
    ":"@ + server + " 461 "@ + nick + " "@ + command + " :Not enough parameters"@
}

pub open spec fn err_unknown_command_text(server: Seq<char>, nick: Seq<char>, command: Seq<char>) -> Seq<char> {
    ":"@ + server + " 421 "@ + nick + " "@ + command + " :Unknown command"@
}

pub open spec fn err_no_such_nick_text(server: Seq<char>, nick: Seq<char>, target: Seq<char>) -> Seq<char> {
    ":"@ + server + " 401 "@ + nick + " "@ + target + " :No such nick/channel"@
}

pub open spec fn err_no_recipient_text(server: Seq<char>, nick: Seq<char>, command: Seq<char>) -> Seq<char> {
    ":"@ + server + " 411 "@ + nick + " :No recipient given ("@ + command + ")"@
}

pub open spec fn err_no_text_to_send_text(server: Seq<char>, nick: Seq<char>) -> Seq<char> {
    ":"@ + server + " 412 "@ + nick + " :No text to send"@
}

pub open spec fn err_no_such_channel_text(server: Seq<char>, nick: Seq<char>, channel: Seq<char>) -> Seq<char> {
    ":"@ + server + " 403 "@ + nick + " "@ + channel + " :No such channel"@
}

pub open spec fn err_not_on_channel_text(server: Seq<char>, nick: Seq<char>, channel: Seq<char>) -> Seq<char> {
    ":"@ + server + " 442 "@ + nick + " "@ + channel + " :You're not on that channel"@
}

pub open spec fn err_not_registered_text(server: Seq<char>, nick: Seq<char>) -> Seq<char> {
    ":"@ + server + " 451 "@ + nick + " :You have not registered"@
}

pub open spec fn err_banned_from_chan_text(server: Seq<char>, nick: Seq<char>, channel: Seq<char>) -> Seq<char> {
    ":"@ + server + " 474 "@ + nick + " "@ + channel + " :Cannot join channel (+b)"@
}

pub open spec fn err_invite_only_chan_text(server: Seq<char>, nick: Seq<char>, channel: Seq<char>) -> Seq<char> {
    ":"@ + server + " 473 "@ + nick + " "@ + channel + " :Cannot join channel (+i)"@
}

pub open spec fn err_bad_channel_key_text(server: Seq<char>, nick: Seq<char>, channel: Seq<char>) -> Seq<char> {
    ":"@ + server + " 475 "@ + nick + " "@ + channel + " :Cannot join channel (+k)"@
}

pub open spec fn err_channel_is_full_text(server: Seq<char>, nick: Seq<char>, channel: Seq<char>) -> Seq<char> {
    ":"@ + server + " 471 "@ + nick + " "@ + channel + " :Cannot join channel (+l)"@
}

pub open spec fn update_nick_text(old_nick: Seq<char>, new_nick: Seq<char>, user: Seq<char>, host: Seq<char>) -> Seq<char> {
    ":"@ + old_nick + "!"@ + user + "@"@ + host + " NICK :"@ + new_nick
}

pub open spec fn broadcast_join_text(nick: Seq<char>, user: Seq<char>, host: Seq<char>, channel: Seq<char>) -> Seq<char> {
    ":"@ + nick + "!"@ + user + "@"@ + host + " JOIN :"@ + channel
}

pub open spec fn nickname_privmsg_text(nick_from: Seq<char>, user_from: Seq<char>, host_from: Seq<char>, nick_to: Seq<char>, message: Seq<char>) -> Seq<char> {
    ":"@ + nick_from + "!"@ + user_from + "@"@ + host_from + " PRIVMSG "@ + nick_to + " :"@ + message
}

pub open spec fn nickname_notice_text(nick_from: Seq<char>, user_from: Seq<char>, host_from: Seq<char>, nick_to: Seq<char>, message: Seq<char>) -> Seq<char> {
    ":"@ + nick_from + "!"@ + user_from + "@"@ + host_from + " NOTICE "@ + nick_to + " :"@ + message
}

pub open spec fn channel_notice_text(nick_from: Seq<char>, user_from: Seq<char>, host_from: Seq<char>, channel: Seq<char>, message: Seq<char>) -> Seq<char> {
    ":"@ + nick_from + "!"@ + user_from + "@"@ + host_from + " NOTICE "@ + channel + " :"@ + message
}

pub open spec fn channel_privmsg_text(nick_from: Seq<char>, user_from: Seq<char>, host_from: Seq<char>, channel: Seq<char>, message: Seq<char>) -> Seq<char> {
    ":"@ + nick_from + "!"@ + user_from + "@"@ + host_from + " PRIVMSG "@ + channel + " :"@ + message
}

pub open spec fn part_msg_text(nick_from: Seq<char>, user_from: Seq<char>, host_from: Seq<char>, channel: Seq<char>, message: Seq<char>) -> Seq<char> {
    ":"@ + nick_from + "!"@ + user_from + "@"@ + host_from + " PART "@ + channel + " :"@ + message
}

pub open spec fn quit_msg_text(nick: Seq<char>, user: Seq<char>, host: Seq<char>, reason: Seq<char>) -> Seq<char> {
    ":"@ + nick + "!"@ + user + "@"@ + host + " QUIT :"@ + reason
}

/// A numeric reply or capability answer, always prefixed by the server name.
#[non_exhaustive]
#[derive(Debug, Clone, PartialEq)]
pub enum IrcReply<'a> {
    Pong { destination: &'a str },
    CapLs { nick: &'a Nickname, capabilities: &'a str },
    CapList { nick: &'a Nickname, capabilities: &'a str },
    Welcome { nick: &'a Nickname, user: &'a Username, host: &'a str },
    YourHost { servername: &'a str, version: &'a str },
    Created { date: &'a str },
    MyInfo { servername: &'a str, version: &'a str, modes: &'a str },
    ErrNicknameInUse { nick: &'a Nickname, wanted: &'a Nickname },
    UModeIs { nick: &'a Nickname, modes: &'a str },
    ErrUModeUnknownFlag { nick: &'a Nickname },
    ErrUsersDontMatch { nick: &'a Nickname },
    Topic { nick: &'a Nickname, channel: &'a ChannelName, topic: &'a Topic },
    NoTopic { nick: &'a Nickname, channel: &'a ChannelName },
    Names { nick: &'a Nickname, channel: &'a ChannelName, visibility: &'a str, names: &'a str },
    EndOfName { nick: &'a Nickname, channel: &'a ChannelName },
    List { channel: &'a ChannelName, visible: u32, topic: &'a Topic },
    ListEnd,
    ErrNeedMoreParams { nick: &'a Nickname, command: &'a str },
    ErrUnknownCommand { nick: &'a Nickname, command: &'a str },
    ErrNoSuchNick { nick: &'a Nickname, target: &'a str },
    ErrNoRecipient { nick: &'a Nickname, command: &'a str },
    ErrNoTextToSend { nick: &'a Nickname },
    ErrNoSuchChannel { nick: &'a Nickname, channel: &'a ChannelName },
    ErrNotOnChannel { nick: &'a Nickname, channel: &'a ChannelName },
    ErrNotRegistered { nick: &'a Nickname },
    ErrBannedFromChan { nick: &'a Nickname, channel: &'a ChannelName },
    ErrInviteOnlyChan { nick: &'a Nickname, channel: &'a ChannelName },
    ErrBadChannelKey { nick: &'a Nickname, channel: &'a ChannelName },
    ErrChannelIsFull { nick: &'a Nickname, channel: &'a ChannelName },
}

impl<'a> IrcReply<'a> {
    /// Renders the reply behind the given server name, without CRLF.
    pub fn format(&self, server_name: &str) -> (r: String)
        ensures
            match self {
            Self::Pong { destination } => r@ == pong_text(server_name@, destination@),
            Self::CapLs { nick, capabilities } => r@ == cap_ls_text(server_name@, nick@, capabilities@),
            Self::CapList { nick, capabilities } => r@ == cap_list_text(server_name@, nick@, capabilities@),
            Self::Welcome { nick, user, host } => r@ == welcome_text(server_name@, nick@, user@, host@),
            Self::YourHost { servername, version } => r@ == your_host_text(server_name@, servername@, version@),
            Self::Created { date } => r@ == created_text(server_name@, date@),
            Self::MyInfo { servername, version, modes } => r@ == my_info_text(server_name@, servername@, version@, modes@),
            Self::ErrNicknameInUse { nick, wanted } => r@ == err_nickname_in_use_text(server_name@, nick@, wanted@),
            Self::UModeIs { nick, modes } => r@ == umode_is_text(server_name@, nick@, modes@),
            Self::ErrUModeUnknownFlag { nick } => r@ == err_umode_unknown_flag_text(server_name@, nick@),
            Self::ErrUsersDontMatch { nick } => r@ == err_users_dont_match_text(server_name@, nick@),
            Self::Topic { nick, channel, topic } => r@ == topic_text(server_name@, nick@, channel@, topic@),
            Self::NoTopic { nick, channel } => r@ == no_topic_text(server_name@, nick@, channel@),
            Self::Names { nick, channel, visibility, names } => r@ == names_text(server_name@, nick@, channel@, visibility@, names@),
            Self::EndOfName { nick, channel } => r@ == end_of_names_text(server_name@, nick@, channel@),
            Self::List { channel, visible, topic } => r@ == list_text(server_name@, channel@, *visible as nat, topic@),
            Self::ListEnd => r@ == list_end_text(server_name@),
            Self::ErrNeedMoreParams { nick, command } => r@ == err_need_more_params_text(server_name@, nick@, command@),
            Self::ErrUnknownCommand { nick, command } => r@ == err_unknown_command_text(server_name@, nick@, command@),
            Self::ErrNoSuchNick { nick, target } => r@ == err_no_such_nick_text(
                server_name@,
                nick@,
                target@,
            ),
            Self::ErrNoRecipient { nick, command } => r@ == err_no_recipient_text(
                server_name@,
                nick@,
                command@,
            ),
            Self::ErrNoTextToSend { nick } => r@ == err_no_text_to_send_text(server_name@, nick@),
            Self::ErrNoSuchChannel { nick, channel } => r@ == err_no_such_channel_text(server_name@, nick@, channel@),
            Self::ErrNotOnChannel { nick, channel } => r@ == err_not_on_channel_text(server_name@, nick@, channel@),
            Self::ErrNotRegistered { nick } => r@ == err_not_registered_text(server_name@, nick@),
            Self::ErrBannedFromChan { nick, channel } => r@ == err_banned_from_chan_text(server_name@, nick@, channel@),
            Self::ErrInviteOnlyChan { nick, channel } => r@ == err_invite_only_chan_text(server_name@, nick@, channel@),
            Self::ErrBadChannelKey { nick, channel } => r@ == err_bad_channel_key_text(server_name@, nick@, channel@),
            Self::ErrChannelIsFull { nick, channel } => r@ == err_channel_is_full_text(server_name@, nick@, channel@),
            },
    {
        match self {
            Self::Pong { destination } => {
                let mut out = String::new();
                out.append(":");
                out.append(server_name);
                out.append(" PONG :");
                out.append(destination);
                proof {
                    assert(out@ =~= pong_text(server_name@, destination@));
                }
                out
            },
            Self::CapLs { nick, capabilities } => {
                let mut out = String::new();
                out.append(":");
                out.append(server_name);
                out.append(" CAP ");
                out.append(nick.0.as_str());
                out.append(" LS :");
                out.append(capabilities);
                proof {
                    assert(out@ =~= cap_ls_text(server_name@, nick@, capabilities@));
                }
                out
            },
            Self::CapList { nick, capabilities } => {
                let mut out = String::new();
                out.append(":");
                out.append(server_name);
                out.append(" CAP ");
                out.append(nick.0.as_str());
                out.append(" LIST :");
                out.append(capabilities);
                proof {
                    assert(out@ =~= cap_list_text(server_name@, nick@, capabilities@));
                }
                out
            },
            Self::Welcome { nick, user, host } => {
                let mut out = String::new();
                out.append(":");
                out.append(server_name);
                out.append(" 001 ");
                out.append(nick.0.as_str());
                out.append(" :Welcome to the Internet Relay Network ");
                out.append(nick.0.as_str());
                out.append("!");
                out.append(user.0.as_str());
                out.append("@");
                out.append(host);
                proof {
                    assert(out@ =~= welcome_text(server_name@, nick@, user@, host@));
                }
                out
            },
            Self::YourHost { servername, version } => {
                let mut out = String::new();
                out.append(":");
                out.append(server_name);
                out.append(" 002 :Your host is ");
                out.append(servername);
                out.append(", running version ");
                out.append(version);
                proof {
                    assert(out@ =~= your_host_text(server_name@, servername@, version@));
                }
                out
            },
            Self::Created { date } => {
                let mut out = String::new();
                out.append(":");
                out.append(server_name);
                out.append(" 003 :This server was created ");
                out.append(date);
                proof {
                    assert(out@ =~= created_text(server_name@, date@));
                }
                out
            },
            Self::MyInfo { servername, version, modes } => {
                let mut out = String::new();
                out.append(":");
                out.append(server_name);
                out.append(" 004 ");
                out.append(servername);
                out.append(" ");
                out.append(version);
                out.append(" ");
                out.append(modes);
                proof {
                    assert(out@ =~= my_info_text(server_name@, servername@, version@, modes@));
                }
                out
            },
            Self::ErrNicknameInUse { nick, wanted } => {
                let mut out = String::new();
                out.append(":");
                out.append(server_name);
                out.append(" 433 ");
                out.append(nick.0.as_str());
                out.append(" ");
                out.append(wanted.0.as_str());
                out.append(" :Nickname is already in use");
                proof {
                    assert(out@ =~= err_nickname_in_use_text(server_name@, nick@, wanted@));
                }
                out
            },
            Self::UModeIs { nick, modes } => {
                let mut out = String::new();
                out.append(":");
                out.append(server_name);
                out.append(" 221 ");
                out.append(nick.0.as_str());
                out.append(" :");
                out.append(modes);
                proof {
                    assert(out@ =~= umode_is_text(server_name@, nick@, modes@));
                }
                out
            },
            Self::ErrUModeUnknownFlag { nick } => {
                let mut out = String::new();
                out.append(":");
                out.append(server_name);
                out.append(" 501 ");
                out.append(nick.0.as_str());
                out.append(" :Unknown MODE flag");
                proof {
                    assert(out@ =~= err_umode_unknown_flag_text(server_name@, nick@));
                }
                out
            },
            Self::ErrUsersDontMatch { nick } => {
                let mut out = String::new();
                out.append(":");
                out.append(server_name);
                out.append(" 502 ");
                out.append(nick.0.as_str());
                out.append(" :Cannot change mode for other users");
                proof {
                    assert(out@ =~= err_users_dont_match_text(server_name@, nick@));
                }
                out
            },
            Self::Topic { nick, channel, topic } => {
                let mut out = String::new();
                out.append(":");
                out.append(server_name);
                out.append(" 332 ");
                out.append(nick.0.as_str());
                out.append(" ");
                out.append(channel.0.as_str());
                out.append(" :");
                out.append(topic.0.as_str());
                proof {
                    assert(out@ =~= topic_text(server_name@, nick@, channel@, topic@));
                }
                out
            },
            Self::NoTopic { nick, channel } => {
                let mut out = String::new();
                out.append(":");
                out.append(server_name);
                out.append(" 331 ");
                out.append(nick.0.as_str());
                out.append(" ");
                out.append(channel.0.as_str());
                out.append(" :No topic is set");
                proof {
                    assert(out@ =~= no_topic_text(server_name@, nick@, channel@));
                }
                out
            },
            Self::Names { nick, channel, visibility, names } => {
                let mut out = String::new();
                out.append(":");
                out.append(server_name);
                out.append(" 353 ");
                out.append(nick.0.as_str());
                out.append(" ");
                out.append(visibility);
                out.append(" ");
                out.append(channel.0.as_str());
                out.append(" :");
                out.append(names);
                proof {
                    assert(out@ =~= names_text(server_name@, nick@, channel@, visibility@, names@));
                }
                out
            },
            Self::EndOfName { nick, channel } => {
                let mut out = String::new();
                out.append(":");
                out.append(server_name);
                out.append(" 366 ");
                out.append(nick.0.as_str());
                out.append(" ");
                out.append(channel.0.as_str());
                out.append(" :End of NAMES list");
                proof {
                    assert(out@ =~= end_of_names_text(server_name@, nick@, channel@));
                }
                out
            },
            Self::List { channel, visible, topic } => {
                let mut out = String::new();
                out.append(":");
                out.append(server_name);
                out.append(" 322 ");
                out.append(channel.0.as_str());
                out.append(" ");
                let digits = u32_dec(*visible);
                out.append(digits.as_str());
                out.append(" :");
                out.append(topic.0.as_str());
                proof {
                    assert(out@ =~= list_text(server_name@, channel@, *visible as nat, topic@));
                }
                out
            },
            Self::ListEnd => {
                let mut out = String::new();
                out.append(":");
                out.append(server_name);
                out.append(" 323 :End of LIST");
                proof {
                    assert(out@ =~= list_end_text(server_name@));
                }
                out
            },
            Self::ErrNeedMoreParams { nick, command } => {
                let mut out = String::new();
                out.append(":");
                out.append(server_name);
                out.append(" 461 ");
                out.append(nick.0.as_str());
                out.append(" ");
                out.append(command);
                out.append(" :Not enough parameters");
                proof {
                    assert(out@ =~= err_need_more_params_text(server_name@, nick@, command@));
                }
                out
            },
            Self::ErrUnknownCommand { nick, command } => {
                let mut out = String::new();
                out.append(":");
                out.append(server_name);
                out.append(" 421 ");
                out.append(nick.0.as_str());
                out.append(" ");
                out.append(command);
                out.append(" :Unknown command");
                proof {
                    assert(out@ =~= err_unknown_command_text(server_name@, nick@, command@));
                }
                out
            },
            Self::ErrNoSuchNick { nick, target } => {
                let mut out = String::new();
                out.append(":");
                out.append(server_name);
                out.append(" 401 ");
                out.append(nick.0.as_str());
                out.append(" ");
                out.append(target);
                out.append(" :No such nick/channel");
                proof {
                    assert(out@ =~= err_no_such_nick_text(server_name@, nick@, target@));
                }
                out
            },
            Self::ErrNoRecipient { nick, command } => {
                let mut out = String::new();
                out.append(":");
                out.append(server_name);
                out.append(" 411 ");
                out.append(nick.0.as_str());
                out.append(" :No recipient given (");
                out.append(command);
                out.append(")");
                proof {
                    assert(out@ =~= err_no_recipient_text(server_name@, nick@, command@));
                }
                out
            },
            Self::ErrNoTextToSend { nick } => {
                let mut out = String::new();
                out.append(":");
                out.append(server_name);
                out.append(" 412 ");
                out.append(nick.0.as_str());
                out.append(" :No text to send");
                proof {
                    assert(out@ =~= err_no_text_to_send_text(server_name@, nick@));
                }
                out
            },
            Self::ErrNoSuchChannel { nick, channel } => {
                let mut out = String::new();
                out.append(":");
                out.append(server_name);
                out.append(" 403 ");
                out.append(nick.0.as_str());
                out.append(" ");
                out.append(channel.0.as_str());
                out.append(" :No such channel");
                proof {
                    assert(out@ =~= err_no_such_channel_text(server_name@, nick@, channel@));
                }
                out
            },
            Self::ErrNotOnChannel { nick, channel } => {
                let mut out = String::new();
                out.append(":");
                out.append(server_name);
                out.append(" 442 ");
                out.append(nick.0.as_str());
                out.append(" ");
                out.append(channel.0.as_str());
                out.append(" :You're not on that channel");
                proof {
                    assert(out@ =~= err_not_on_channel_text(server_name@, nick@, channel@));
                }
                out
            },
            Self::ErrNotRegistered { nick } => {
                let mut out = String::new();
                out.append(":");
                out.append(server_name);
                out.append(" 451 ");
                out.append(nick.0.as_str());
                out.append(" :You have not registered");
                proof {
                    assert(out@ =~= err_not_registered_text(server_name@, nick@));
                }
                out
            },
            Self::ErrBannedFromChan { nick, channel } => {
                let mut out = String::new();
                out.append(":");
                out.append(server_name);
                out.append(" 474 ");
                out.append(nick.0.as_str());
                out.append(" ");
                out.append(channel.0.as_str());
                out.append(" :Cannot join channel (+b)");
                proof {
                    assert(out@ =~= err_banned_from_chan_text(server_name@, nick@, channel@));
                }
                out
            },
            Self::ErrInviteOnlyChan { nick, channel } => {
                let mut out = String::new();
                out.append(":");
                out.append(server_name);
                out.append(" 473 ");
                out.append(nick.0.as_str());
                out.append(" ");
                out.append(channel.0.as_str());
                out.append(" :Cannot join channel (+i)");
                proof {
                    assert(out@ =~= err_invite_only_chan_text(server_name@, nick@, channel@));
                }
                out
            },
            Self::ErrBadChannelKey { nick, channel } => {
                let mut out = String::new();
                out.append(":");
                out.append(server_name);
                out.append(" 475 ");
                out.append(nick.0.as_str());
                out.append(" ");
                out.append(channel.0.as_str());
                out.append(" :Cannot join channel (+k)");
                proof {
                    assert(out@ =~= err_bad_channel_key_text(server_name@, nick@, channel@));
                }
                out
            },
            Self::ErrChannelIsFull { nick, channel } => {
                let mut out = String::new();
                out.append(":");
                out.append(server_name);
                out.append(" 471 ");
                out.append(nick.0.as_str());
                out.append(" ");
                out.append(channel.0.as_str());
                out.append(" :Cannot join channel (+l)");
                proof {
                    assert(out@ =~= err_channel_is_full_text(server_name@, nick@, channel@));
                }
                out
            },
        }
    }
}

/// A relayed message, prefixed by the sender's nick!user@host.
#[non_exhaustive]
#[derive(Debug, Clone, PartialEq)]
pub enum MessageReply<'a> {
    UpdateNick { old_nick: &'a Nickname, new_nick: &'a Nickname, user: &'a Username, host: &'a str },
    BroadcastJoinMsg { nick: &'a Nickname, user: &'a Username, host: &'a str, channel: &'a ChannelName },
    NicknamePrivMsg { nick_from: &'a Nickname, user_from: &'a Username, host_from: &'a str, nick_to: &'a Nickname, message: &'a str },
    NicknameNoticeMsg { nick_from: &'a Nickname, user_from: &'a Username, host_from: &'a str, nick_to: &'a Nickname, message: &'a str },
    ChannelNoticeMsg { nick_from: &'a Nickname, user_from: &'a Username, host_from: &'a str, channel: &'a ChannelName, message: &'a str },
    ChannelPrivMsg { nick_from: &'a Nickname, user_from: &'a Username, host_from: &'a str, channel: &'a ChannelName, message: &'a str },
    PartMsg { nick_from: &'a Nickname, user_from: &'a Username, host_from: &'a str, channel: &'a ChannelName, message: &'a str },
    QuitMsg { nick: &'a Nickname, user: &'a Username, host: &'a str, reason: &'a str },
}

impl<'a> MessageReply<'a> {
    /// Renders the relay line, without CRLF.
    pub fn format(&self) -> (r: String)
        ensures
            match self {
            Self::UpdateNick { old_nick, new_nick, user, host } => r@ == update_nick_text(old_nick@, new_nick@, user@, host@),
            Self::BroadcastJoinMsg { nick, user, host, channel } => r@ == broadcast_join_text(nick@, user@, host@, channel@),
            Self::NicknamePrivMsg { nick_from, user_from, host_from, nick_to, message } => r@ == nickname_privmsg_text(nick_from@, user_from@, host_from@, nick_to@, message@),
            Self::NicknameNoticeMsg { nick_from, user_from, host_from, nick_to, message } => r@ == nickname_notice_text(nick_from@, user_from@, host_from@, nick_to@, message@),
            Self::ChannelNoticeMsg { nick_from, user_from, host_from, channel, message } => r@ == channel_notice_text(nick_from@, user_from@, host_from@, channel@, message@),
            Self::ChannelPrivMsg { nick_from, user_from, host_from, channel, message } => r@ == channel_privmsg_text(nick_from@, user_from@, host_from@, channel@, message@),
            Self::PartMsg { nick_from, user_from, host_from, channel, message } => r@ == part_msg_text(nick_from@, user_from@, host_from@, channel@, message@),
            Self::QuitMsg { nick, user, host, reason } => r@ == quit_msg_text(nick@, user@, host@, reason@),
            },
    {
        match self {
            Self::UpdateNick { old_nick, new_nick, user, host } => {
                let mut out = String::new();
                out.append(":");
                out.append(old_nick.0.as_str());
                out.append("!");
                out.append(user.0.as_str());
                out.append("@");
                out.append(host);
                out.append(" NICK :");
                out.append(new_nick.0.as_str());
                proof {
                    assert(out@ =~= update_nick_text(old_nick@, new_nick@, user@, host@));
                }
                out
            },
            Self::BroadcastJoinMsg { nick, user, host, channel } => {
                let mut out = String::new();
                out.append(":");
                out.append(nick.0.as_str());
                out.append("!");
                out.append(user.0.as_str());
                out.append("@");
                out.append(host);
                out.append(" JOIN :");
                out.append(channel.0.as_str());
                proof {
                    assert(out@ =~= broadcast_join_text(nick@, user@, host@, channel@));
                }
                out
            },
            Self::NicknamePrivMsg { nick_from, user_from, host_from, nick_to, message } => {
                let mut out = String::new();
                out.append(":");
                out.append(nick_from.0.as_str());
                out.append("!");
                out.append(user_from.0.as_str());
                out.append("@");
                out.append(host_from);
                out.append(" PRIVMSG ");
                out.append(nick_to.0.as_str());
                out.append(" :");
                out.append(message);
                proof {
                    assert(out@ =~= nickname_privmsg_text(nick_from@, user_from@, host_from@, nick_to@, message@));
                }
                out
            },
            Self::NicknameNoticeMsg { nick_from, user_from, host_from, nick_to, message } => {
                let mut out = String::new();
                out.append(":");
                out.append(nick_from.0.as_str());
                out.append("!");
                out.append(user_from.0.as_str());
                out.append("@");
                out.append(host_from);
                out.append(" NOTICE ");
                out.append(nick_to.0.as_str());
                out.append(" :");
                out.append(message);
                proof {
                    assert(out@ =~= nickname_notice_text(nick_from@, user_from@, host_from@, nick_to@, message@));
                }
                out
            },
            Self::ChannelNoticeMsg { nick_from, user_from, host_from, channel, message } => {
                let mut out = String::new();
                out.append(":");
                out.append(nick_from.0.as_str());
                out.append("!");
                out.append(user_from.0.as_str());
                out.append("@");
                out.append(host_from);
                out.append(" NOTICE ");
                out.append(channel.0.as_str());
                out.append(" :");
                out.append(message);
                proof {
                    assert(out@ =~= channel_notice_text(nick_from@, user_from@, host_from@, channel@, message@));
                }
                out
            },
            Self::ChannelPrivMsg { nick_from, user_from, host_from, channel, message } => {
                let mut out = String::new();
                out.append(":");
                out.append(nick_from.0.as_str());
                out.append("!");
                out.append(user_from.0.as_str());
                out.append("@");
                out.append(host_from);
                out.append(" PRIVMSG ");
                out.append(channel.0.as_str());
                out.append(" :");
                out.append(message);
                proof {
                    assert(out@ =~= channel_privmsg_text(nick_from@, user_from@, host_from@, channel@, message@));
                }
                out
            },
            Self::PartMsg { nick_from, user_from, host_from, channel, message } => {
                let mut out = String::new();
                out.append(":");
                out.append(nick_from.0.as_str());
                out.append("!");
                out.append(user_from.0.as_str());
                out.append("@");
                out.append(host_from);
                out.append(" PART ");
                out.append(channel.0.as_str());
                out.append(" :");
                out.append(message);
                proof {
                    assert(out@ =~= part_msg_text(nick_from@, user_from@, host_from@, channel@, message@));
                }
                out
            },
            Self::QuitMsg { nick, user, host, reason } => {
                let mut out = String::new();
                out.append(":");
                out.append(nick.0.as_str());
                out.append("!");
                out.append(user.0.as_str());
                out.append("@");
                out.append(host);
                out.append(" QUIT :");
                out.append(reason);
                proof {
                    assert(out@ =~= quit_msg_text(nick@, user@, host@, reason@));
                }
                out
            },
        }
    }
}

} // verus!
