//! Channel operation commands (RFC 2812 section 3.2): JOIN, the special
//! "JOIN 0", PART, MODE in its channel form, TOPIC, NAMES, LIST, INVITE
//! and KICK.

use vstd::prelude::*;

use crate::grammar::{match_at, match_nocase_at, run_len, scan, tag_at, tag_nocase_at, CharClass};
use crate::parsers::{
    channel_len, mode_groups_ext, nickname_len, owned_sub, parse_list, rest_from, strings_match,
    target_len, trailing_len, wildcards_len, TokenKind,
};
use crate::parsers;

verus! {

/// A channel command as it stands on the wire, described at the
/// specification level.
pub enum ChanParse {
    Leave,
    Join(Seq<Seq<char>>, Option<Seq<Seq<char>>>),
    Part(Seq<Seq<char>>, Option<Seq<char>>),
    Mode(Seq<char>, Seq<(char, Seq<char>)>),
    Topic(Seq<char>, Option<Seq<char>>),
    Names(Option<Seq<Seq<char>>>, Option<Seq<char>>),
    List(Option<Seq<Seq<char>>>, Option<Seq<char>>),
    Invite(Seq<char>, Seq<char>),
    Kick(Seq<Seq<char>>, Seq<Seq<char>>, Option<Seq<char>>),
}

/// JOIN <channel> *( "," <channel> ) [ " " <key> *( "," <key> ) ]
pub open spec fn join_parse(s: Seq<char>) -> Option<(nat, Seq<Seq<char>>, Option<Seq<Seq<char>>>)> {
    if !match_nocase_at(s, 0, "JOIN "@) {
        None
    } else {
        match parse_list(TokenKind::ChannelName, s.skip(5)) {
            None => None,
            Some(cl) => {
                let p1 = 5 + cl.0 as int;
                if p1 < s.len() && s[p1] == ' ' {
                    match parse_list(TokenKind::ChannelKey, s.skip(p1 + 1)) {
                        Some(kl) => Some(((p1 + 1 + kl.0) as nat, cl.1, Some(kl.1))),
                        None => Some(((5 + cl.0) as nat, cl.1, None)),
                    }
                } else {
                    Some(((5 + cl.0) as nat, cl.1, None))
                }
            },
        }
    }
}

/// JOIN 0: the request to leave every joined channel.
pub open spec fn leave_parse(s: Seq<char>) -> Option<nat> {
    if match_nocase_at(s, 0, "JOIN 0"@) {
        Some(6)
    } else {
        None
    }
}

/// PART <channel> *( "," <channel> ) [ " :" <message> ]
pub open spec fn part_parse(s: Seq<char>) -> Option<(nat, Seq<Seq<char>>, Option<Seq<char>>)> {
    if !match_nocase_at(s, 0, "PART "@) {
        None
    } else {
        match parse_list(TokenKind::ChannelName, s.skip(5)) {
            None => None,
            Some(cl) => {
                let p1 = 5 + cl.0 as int;
                if match_at(s, p1, " :"@) {
                    let t = trailing_len(s.skip(p1 + 2));
                    Some(((p1 + 2 + t) as nat, cl.1, Some(s.subrange(p1 + 2, p1 + 2 + t))))
                } else {
                    Some(((5 + cl.0) as nat, cl.1, None))
                }
            },
        }
    }
}

/// MODE <channel> ( "+" / "-" ) 1*<mode letter> ...
pub open spec fn chan_mode_parse(s: Seq<char>) -> Option<(nat, Seq<char>, Seq<(char, Seq<char>)>)> {
    if !match_nocase_at(s, 0, "MODE "@) {
        None
    } else {
        match channel_len(s.skip(5)) {
            None => None,
            Some(c) => {
                let p1 = 5 + c as int;
                if p1 < s.len() && s[p1] == ' ' {
                    let g = mode_groups_ext(CharClass::ChanModeFlag, s.skip(p1 + 1));
                    if g.1.len() == 0 {
                        None
                    } else {
                        Some(((p1 + 1 + g.0) as nat, s.subrange(5, p1), g.1))
                    }
                } else {
                    None
                }
            },
        }
    }
}

/// TOPIC <channel> [ " " <topic> ]
pub open spec fn topic_parse(s: Seq<char>) -> Option<(nat, Seq<char>, Option<Seq<char>>)> {
    if !match_nocase_at(s, 0, "TOPIC "@) {
        None
    } else {
        match channel_len(s.skip(6)) {
            None => None,
            Some(c) => {
                let p1 = 6 + c as int;
                if p1 < s.len() && s[p1] == ' ' {
                    let t = trailing_len(s.skip(p1 + 1));
                    Some(((p1 + 1 + t) as nat, s.subrange(6, p1), Some(s.subrange(p1 + 1, p1 + 1 + t))))
                } else {
                    Some(((6 + c) as nat, s.subrange(6, p1), None))
                }
            },
        }
    }
}

/// The optional target of NAMES and LIST: a nickname or servername, or a
/// wildcard token.
pub open spec fn names_target_len(s: Seq<char>) -> Option<nat> {
    if target_len(s) is Some {
        target_len(s)
    } else {
        wildcards_len(s)
    }
}

/// NAMES and LIST share one parameter shape behind their verbs.
pub open spec fn chans_target_parse(s: Seq<char>, p: int) -> (nat, Option<Seq<Seq<char>>>, Option<Seq<char>>) {
    if p < s.len() && s[p] == ' ' && parse_list(TokenKind::ChannelName, s.skip(p + 1)) is Some {
        let cl = parse_list(TokenKind::ChannelName, s.skip(p + 1)).unwrap();
        let p1 = p + 1 + cl.0 as int;
        if p1 < s.len() && s[p1] == ' ' && names_target_len(s.skip(p1 + 1)) is Some {
            let t = names_target_len(s.skip(p1 + 1)).unwrap();
            ((p1 + 1 + t) as nat, Some(cl.1), Some(s.subrange(p1 + 1, p1 + 1 + t)))
        } else {
            (p1 as nat, Some(cl.1), None)
        }
    } else {
        (p as nat, None, None)
    }
}

/// NAMES [ <channel> *( "," <channel> ) [ <target> ] ]
pub open spec fn names_parse(s: Seq<char>) -> Option<(nat, Option<Seq<Seq<char>>>, Option<Seq<char>>)> {
    if !match_nocase_at(s, 0, "NAMES"@) {
        None
    } else {
        Some(chans_target_parse(s, 5))
    }
}

/// LIST [ <channel> *( "," <channel> ) [ <target> ] ]
pub open spec fn list_cmd_parse(s: Seq<char>) -> Option<(nat, Option<Seq<Seq<char>>>, Option<Seq<char>>)> {
    if !match_nocase_at(s, 0, "LIST"@) {
        None
    } else {
        Some(chans_target_parse(s, 4))
    }
}

/// INVITE <nickname> <channel>
pub open spec fn invite_parse(s: Seq<char>) -> Option<(nat, Seq<char>, Seq<char>)> {
    if !match_nocase_at(s, 0, "INVITE "@) {
        None
    } else {
        match nickname_len(s.skip(7)) {
            None => None,
            Some(nk) => {
                let p1 = 7 + nk as int;
                if p1 < s.len() && s[p1] == ' ' {
                    match channel_len(s.skip(p1 + 1)) {
                        Some(c) => Some(
                            ((p1 + 1 + c) as nat, s.subrange(7, p1), s.subrange(p1 + 1, p1 + 1 + c)),
                        ),
                        None => None,
                    }
                } else {
                    None
                }
            },
        }
    }
}

/// KICK <channel> *( "," <channel> ) " " <user> *( "," <user> ) [ " :" <comment> ]
pub open spec fn kick_parse(s: Seq<char>) -> Option<
    (nat, Seq<Seq<char>>, Seq<Seq<char>>, Option<Seq<char>>),
> {
    if !match_nocase_at(s, 0, "KICK "@) {
        None
    } else {
        match parse_list(TokenKind::ChannelName, s.skip(5)) {
            None => None,
            Some(cl) => {
                let p1 = 5 + cl.0 as int;
                if p1 < s.len() && s[p1] == ' ' {
                    match parse_list(TokenKind::UserName, s.skip(p1 + 1)) {
                        None => None,
                        Some(ul) => {
                            let p2 = p1 + 1 + ul.0 as int;
                            if match_at(s, p2, " :"@) {
                                let t = trailing_len(s.skip(p2 + 2));
                                Some(
                                    (
                                        (p2 + 2 + t) as nat,
                                        cl.1,
                                        ul.1,
                                        Some(s.subrange(p2 + 2, p2 + 2 + t)),
                                    ),
                                )
                            } else {
                                Some((p2 as nat, cl.1, ul.1, None))
                            }
                        },
                    }
                } else {
                    None
                }
            },
        }
    }
}

/// The channel grammar alternatives, tried in order.
pub open spec fn channel_op_parse(s: Seq<char>) -> Option<(nat, ChanParse)> {
    if join_parse(s) is Some {
        let p = join_parse(s).unwrap();
        Some((p.0, ChanParse::Join(p.1, p.2)))
    } else if leave_parse(s) is Some {
        Some((leave_parse(s).unwrap(), ChanParse::Leave))
    } else if part_parse(s) is Some {
        let p = part_parse(s).unwrap();
        Some((p.0, ChanParse::Part(p.1, p.2)))
    } else if chan_mode_parse(s) is Some {
        let p = chan_mode_parse(s).unwrap();
        Some((p.0, ChanParse::Mode(p.1, p.2)))
    } else if topic_parse(s) is Some {
        let p = topic_parse(s).unwrap();
        Some((p.0, ChanParse::Topic(p.1, p.2)))
    } else if names_parse(s) is Some {
        let p = names_parse(s).unwrap();
        Some((p.0, ChanParse::Names(p.1, p.2)))
    } else if list_cmd_parse(s) is Some {
        let p = list_cmd_parse(s).unwrap();
        Some((p.0, ChanParse::List(p.1, p.2)))
    } else if invite_parse(s) is Some {
        let p = invite_parse(s).unwrap();
        Some((p.0, ChanParse::Invite(p.1, p.2)))
    } else if kick_parse(s) is Some {
        let p = kick_parse(s).unwrap();
        Some((p.0, ChanParse::Kick(p.1, p.2, p.3)))
    } else {
        None
    }
}

/// A parsed channel command with its owned parameters.
#[derive(Debug, PartialEq)]
pub enum IrcChannelOperation {
    LEAVE,
    JOIN(Vec<String>, Option<Vec<String>>),
    PART(Vec<String>, Option<String>),
    MODE(String, Vec<(char, Vec<char>)>),
    TOPIC(String, Option<String>),
    NAMES(Option<Vec<String>>, Option<String>),
    LIST(Option<Vec<String>>, Option<String>),
    INVITE(String, String),
    KICK(Vec<String>, Vec<String>, Option<String>),
}

pub open spec fn opt_string_matches(v: Option<String>, x: Option<Seq<char>>) -> bool {
    match (v, x) {
        (Some(a), Some(b)) => a@ == b,
        (None, None) => true,
        _ => false,
    }
}

pub open spec fn opt_strings_match(v: Option<Vec<String>>, x: Option<Seq<Seq<char>>>) -> bool {
    match (v, x) {
        (Some(a), Some(b)) => strings_match(a@, b),
        (None, None) => true,
        _ => false,
    }
}

/// The executable value carries exactly the fields of its specification view.
pub open spec fn chan_matches(c: IrcChannelOperation, v: ChanParse) -> bool {
    match (c, v) {
        (IrcChannelOperation::LEAVE, ChanParse::Leave) => true,
        (IrcChannelOperation::JOIN(cs, ks), ChanParse::Join(xs, xks)) => strings_match(cs@, xs)
            && opt_strings_match(ks, xks),
        (IrcChannelOperation::PART(cs, m), ChanParse::Part(xs, xm)) => strings_match(cs@, xs)
            && opt_string_matches(m, xm),
        (IrcChannelOperation::MODE(c2, g), ChanParse::Mode(x, gs)) => c2@ == x && g@.len()
            == gs.len() && (forall|i: int|
            0 <= i < gs.len() ==> (#[trigger] g@[i]).0 == gs[i].0 && g@[i].1@ == gs[i].1),
        (IrcChannelOperation::TOPIC(c2, t), ChanParse::Topic(x, xt)) => c2@ == x
            && opt_string_matches(t, xt),
        (IrcChannelOperation::NAMES(cs, t), ChanParse::Names(xs, xt)) => opt_strings_match(cs, xs)
            && opt_string_matches(t, xt),
        (IrcChannelOperation::LIST(cs, t), ChanParse::List(xs, xt)) => opt_strings_match(cs, xs)
            && opt_string_matches(t, xt),
        (IrcChannelOperation::INVITE(nk, c2), ChanParse::Invite(x, y)) => nk@ == x && c2@ == y,
        (IrcChannelOperation::KICK(cs, us, m), ChanParse::Kick(xs, ys, xm)) => strings_match(
            cs@,
            xs,
        ) && strings_match(us@, ys) && opt_string_matches(m, xm),
        _ => false,
    }
}

pub fn valid_join_channel_parser<'a>(input: &'a str) -> (r: Option<(&'a str, IrcChannelOperation)>)
    ensures
        match r {
            Some(p) => match join_parse(input@) {
                Some(q) => p.0@ == input@.skip(q.0 as int) && chan_matches(
                    p.1,
                    ChanParse::Join(q.1, q.2),
                ),
                None => false,
            },
            None => join_parse(input@) is None,
        },
{
    proof {
        reveal_strlit("JOIN ");
    }
    if !tag_nocase_at(input, 0, "JOIN ") {
        return None;
    }
    let _n = input.unicode_len();
    let (c_end, channels) = match parsers::list_at(input, 5, TokenKind::ChannelName) {
        Some(p) => p,
        None => {
            return None;
        },
    };
    if parsers::char_at_is(input, c_end, ' ') {
        match parsers::list_at(input, c_end + 1, TokenKind::ChannelKey) {
            Some((k_end, keys)) => {
                let rest = rest_from(input, k_end);
                return Some((rest, IrcChannelOperation::JOIN(channels, Some(keys))));
            },
            None => {},
        }
    }
    let rest = rest_from(input, c_end);
    Some((rest, IrcChannelOperation::JOIN(channels, None)))
}

pub fn valid_leave_channel_parser<'a>(input: &'a str) -> (r: Option<(&'a str, IrcChannelOperation)>)
    ensures
        match r {
            Some(p) => leave_parse(input@) == Some(6nat) && p.0@ == input@.skip(6) && p.1
                == IrcChannelOperation::LEAVE,
            None => leave_parse(input@) is None,
        },
{
    proof {
        reveal_strlit("JOIN 0");
    }
    if !tag_nocase_at(input, 0, "JOIN 0") {
        return None;
    }
    let rest = rest_from(input, 6);
    Some((rest, IrcChannelOperation::LEAVE))
}

pub fn valid_part_channel_parser<'a>(input: &'a str) -> (r: Option<(&'a str, IrcChannelOperation)>)
    ensures
        match r {
            Some(p) => match part_parse(input@) {
                Some(q) => p.0@ == input@.skip(q.0 as int) && chan_matches(
                    p.1,
                    ChanParse::Part(q.1, q.2),
                ),
                None => false,
            },
            None => part_parse(input@) is None,
        },
{
    proof {
        reveal_strlit("PART ");
        reveal_strlit(" :");
    }
    if !tag_nocase_at(input, 0, "PART ") {
        return None;
    }
    let _n = input.unicode_len();
    let (c_end, channels) = match parsers::list_at(input, 5, TokenKind::ChannelName) {
        Some(p) => p,
        None => {
            return None;
        },
    };
    if tag_at(input, c_end, " :") {
        let t_end = parsers::trailing_at(input, c_end + 2);
        let message = owned_sub(input, c_end + 2, t_end);
        let rest = rest_from(input, t_end);
        Some((rest, IrcChannelOperation::PART(channels, Some(message))))
    } else {
        let rest = rest_from(input, c_end);
        Some((rest, IrcChannelOperation::PART(channels, None)))
    }
}

pub fn valid_mode_channel_parser<'a>(input: &'a str) -> (r: Option<(&'a str, IrcChannelOperation)>)
    ensures
        match r {
            Some(p) => match chan_mode_parse(input@) {
                Some(q) => p.0@ == input@.skip(q.0 as int) && chan_matches(
                    p.1,
                    ChanParse::Mode(q.1, q.2),
                ),
                None => false,
            },
            None => chan_mode_parse(input@) is None,
        },
{
    proof {
        reveal_strlit("MODE ");
    }
    if !tag_nocase_at(input, 0, "MODE ") {
        return None;
    }
    let _n = input.unicode_len();
    let c_end = match parsers::channel_at(input, 5) {
        Some(e) => e,
        None => {
            return None;
        },
    };
    if !parsers::char_at_is(input, c_end, ' ') {
        return None;
    }
    let (g_end, groups) = parsers::mode_groups_at(input, c_end + 1, CharClass::ChanModeFlag);
    if groups.is_empty() {
        return None;
    }
    let channel = owned_sub(input, 5, c_end);
    let rest = rest_from(input, g_end);
    Some((rest, IrcChannelOperation::MODE(channel, groups)))
}

pub fn valid_topic_channel_parser<'a>(input: &'a str) -> (r: Option<(&'a str, IrcChannelOperation)>)
    ensures
        match r {
            Some(p) => match topic_parse(input@) {
                Some(q) => p.0@ == input@.skip(q.0 as int) && chan_matches(
                    p.1,
                    ChanParse::Topic(q.1, q.2),
                ),
                None => false,
            },
            None => topic_parse(input@) is None,
        },
{
    proof {
        reveal_strlit("TOPIC ");
    }
    if !tag_nocase_at(input, 0, "TOPIC ") {
        return None;
    }
    let _n = input.unicode_len();
    let c_end = match parsers::channel_at(input, 6) {
        Some(e) => e,
        None => {
            return None;
        },
    };
    let channel = owned_sub(input, 6, c_end);
    if parsers::char_at_is(input, c_end, ' ') {
        let t_end = parsers::trailing_at(input, c_end + 1);
        let topic = owned_sub(input, c_end + 1, t_end);
        let rest = rest_from(input, t_end);
        Some((rest, IrcChannelOperation::TOPIC(channel, Some(topic))))
    } else {
        let rest = rest_from(input, c_end);
        Some((rest, IrcChannelOperation::TOPIC(channel, None)))
    }
}

/// The shared parameter tail of NAMES and LIST, starting at `p`.
fn chans_target_at(s: &str, p: usize) -> (r: (usize, Option<Vec<String>>, Option<String>))
    requires
        p <= s@.len(),
    ensures
        ({
            let q = chans_target_parse(s@, p as int);
            &&& p <= r.0 <= s@.len()
            &&& q.0 == r.0 as nat
            &&& opt_strings_match(r.1, q.1)
            &&& opt_string_matches(r.2, q.2)
        }),
{
    let _n = s.unicode_len();
    if parsers::char_at_is(s, p, ' ') {
        match parsers::list_at(s, p + 1, TokenKind::ChannelName) {
            Some((c_end, channels)) => {
                if parsers::char_at_is(s, c_end, ' ') {
                    let t_end = match parsers::target_at(s, c_end + 1) {
                        Some(e) => Some(e),
                        None => parsers::wildcards_at(s, c_end + 1),
                    };
                    match t_end {
                        Some(e) => {
                            let target = owned_sub(s, c_end + 1, e);
                            return (e, Some(channels), Some(target));
                        },
                        None => {
                            return (c_end, Some(channels), None);
                        },
                    }
                }
                (c_end, Some(channels), None)
            },
            None => (p, None, None),
        }
    } else {
        (p, None, None)
    }
}

pub fn valid_names_channel_parser<'a>(input: &'a str) -> (r: Option<(&'a str, IrcChannelOperation)>)
    ensures
        match r {
            Some(p) => match names_parse(input@) {
                Some(q) => p.0@ == input@.skip(q.0 as int) && chan_matches(
                    p.1,
                    ChanParse::Names(q.1, q.2),
                ),
                None => false,
            },
            None => names_parse(input@) is None,
        },
{
    proof {
        reveal_strlit("NAMES");
    }
    if !tag_nocase_at(input, 0, "NAMES") {
        return None;
    }
    let (e, channels, target) = chans_target_at(input, 5);
    let rest = rest_from(input, e);
    Some((rest, IrcChannelOperation::NAMES(channels, target)))
}

pub fn valid_list_channel_parser<'a>(input: &'a str) -> (r: Option<(&'a str, IrcChannelOperation)>)
    ensures
        match r {
            Some(p) => match list_cmd_parse(input@) {
                Some(q) => p.0@ == input@.skip(q.0 as int) && chan_matches(
                    p.1,
                    ChanParse::List(q.1, q.2),
                ),
                None => false,
            },
            None => list_cmd_parse(input@) is None,
        },
{
    proof {
        reveal_strlit("LIST");
    }
    if !tag_nocase_at(input, 0, "LIST") {
        return None;
    }
    let (e, channels, target) = chans_target_at(input, 4);
    let rest = rest_from(input, e);
    Some((rest, IrcChannelOperation::LIST(channels, target)))
}

pub fn valid_invite_channel_parser<'a>(input: &'a str) -> (r: Option<
    (&'a str, IrcChannelOperation),
>)
    ensures
        match r {
            Some(p) => match invite_parse(input@) {
                Some(q) => p.0@ == input@.skip(q.0 as int) && chan_matches(
                    p.1,
                    ChanParse::Invite(q.1, q.2),
                ),
                None => false,
            },
            None => invite_parse(input@) is None,
        },
{
    proof {
        reveal_strlit("INVITE ");
    }
    if !tag_nocase_at(input, 0, "INVITE ") {
        return None;
    }
    let _n = input.unicode_len();
    let nk_end = match parsers::nickname_at(input, 7) {
        Some(e) => e,
        None => {
            return None;
        },
    };
    if !parsers::char_at_is(input, nk_end, ' ') {
        return None;
    }
    let c_end = match parsers::channel_at(input, nk_end + 1) {
        Some(e) => e,
        None => {
            return None;
        },
    };
    let nickname = owned_sub(input, 7, nk_end);
    let channel = owned_sub(input, nk_end + 1, c_end);
    let rest = rest_from(input, c_end);
    Some((rest, IrcChannelOperation::INVITE(nickname, channel)))
}

pub fn valid_kick_channel_parser<'a>(input: &'a str) -> (r: Option<(&'a str, IrcChannelOperation)>)
    ensures
        match r {
            Some(p) => match kick_parse(input@) {
                Some(q) => p.0@ == input@.skip(q.0 as int) && chan_matches(
                    p.1,
                    ChanParse::Kick(q.1, q.2, q.3),
                ),
                None => false,
            },
            None => kick_parse(input@) is None,
        },
{
    proof {
        reveal_strlit("KICK ");
        reveal_strlit(" :");
    }
    if !tag_nocase_at(input, 0, "KICK ") {
        return None;
    }
    let _n = input.unicode_len();
    let (c_end, channels) = match parsers::list_at(input, 5, TokenKind::ChannelName) {
        Some(p) => p,
        None => {
            return None;
        },
    };
    if !parsers::char_at_is(input, c_end, ' ') {
        return None;
    }
    let (u_end, users) = match parsers::list_at(input, c_end + 1, TokenKind::UserName) {
        Some(p) => p,
        None => {
            return None;
        },
    };
    if tag_at(input, u_end, " :") {
        let t_end = parsers::trailing_at(input, u_end + 2);
        let comment = owned_sub(input, u_end + 2, t_end);
        let rest = rest_from(input, t_end);
        Some((rest, IrcChannelOperation::KICK(channels, users, Some(comment))))
    } else {
        let rest = rest_from(input, u_end);
        Some((rest, IrcChannelOperation::KICK(channels, users, None)))
    }
}

impl IrcChannelOperation {
    /// Tries the channel grammar alternatives in their order.
    pub fn irc_command_parser<'a>(input: &'a str) -> (r: Option<(&'a str, IrcChannelOperation)>)
        ensures
            match r {
                Some(p) => match channel_op_parse(input@) {
                    Some(q) => p.0@ == input@.skip(q.0 as int) && chan_matches(p.1, q.1),
                    None => false,
                },
                None => channel_op_parse(input@) is None,
            },
    {
        if let Some(p) = valid_join_channel_parser(input) {
            return Some(p);
        }
        if let Some(p) = valid_leave_channel_parser(input) {
            return Some(p);
        }
        if let Some(p) = valid_part_channel_parser(input) {
            return Some(p);
        }
        if let Some(p) = valid_mode_channel_parser(input) {
            return Some(p);
        }
        if let Some(p) = valid_topic_channel_parser(input) {
            return Some(p);
        }
        if let Some(p) = valid_names_channel_parser(input) {
            return Some(p);
        }
        if let Some(p) = valid_list_channel_parser(input) {
            return Some(p);
        }
        if let Some(p) = valid_invite_channel_parser(input) {
            return Some(p);
        }
        if let Some(p) = valid_kick_channel_parser(input) {
            return Some(p);
        }
        None
    }
}

/// A channel command whose parameters were missing: the reply it deserves
/// names the command.
#[derive(Debug)]
pub struct IrcInvalidChannelOperation(pub String);

/// A bare JOIN without parameters.
pub open spec fn invalid_join_parse(s: Seq<char>) -> Option<nat> {
    if match_nocase_at(s, 0, "JOIN"@) {
        Some(4)
    } else {
        None
    }
}

pub fn invalid_join_channel_parser<'a>(input: &'a str) -> (r: Option<
    (&'a str, IrcInvalidChannelOperation),
>)
    ensures
        match r {
            Some(p) => invalid_join_parse(input@) == Some(4nat) && p.0@ == input@.skip(4)
                && p.1.0@ == "JOIN"@,
            None => invalid_join_parse(input@) is None,
        },
{
    proof {
        reveal_strlit("JOIN");
    }
    if !tag_nocase_at(input, 0, "JOIN") {
        return None;
    }
    let rest = rest_from(input, 4);
    let word = String::from_str("JOIN");
    Some((rest, IrcInvalidChannelOperation(word)))
}

impl IrcInvalidChannelOperation {
    /// Recognizes a channel command that lacked its parameters.
    pub fn irc_command_parser<'a>(input: &'a str) -> (r: Option<
        (&'a str, IrcInvalidChannelOperation),
    >)
        ensures
            match r {
                Some(p) => invalid_join_parse(input@) == Some(4nat) && p.0@ == input@.skip(4)
                    && p.1.0@ == "JOIN"@,
                None => invalid_join_parse(input@) is None,
            },
    {
        invalid_join_channel_parser(input)
    }
}

} // verus!
