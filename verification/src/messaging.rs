//! Message sending commands (RFC 2812 section 3.3): PRIVMSG.

use vstd::prelude::*;

use crate::grammar::{match_at, match_nocase_at, tag_at, tag_nocase_at};
use crate::parsers::{msgtarget_len, owned_sub, rest_from, targetmask_len, trailing_len};
use crate::parsers;

verus! {

/// A message sending command.
pub enum IrcMessageSending {
    PRIVMSG(String, String),
    NOTICE(String, String),
    MOTD,
    VERSION,
    STATS,
    LINKS,
    TIME,
    CONNECT,
    TRACE,
    ADMIN,
    INFO,
}

/// NOTICE <msgtarget> :<text>; notices never draw error replies.
pub open spec fn notice_parse(s: Seq<char>) -> Option<(nat, Seq<char>, Seq<char>)> {
    if !match_nocase_at(s, 0, "NOTICE "@) {
        None
    } else {
        let tl: Option<nat> = if msgtarget_len(s.skip(7)) is Some {
            msgtarget_len(s.skip(7))
        } else {
            targetmask_len(s.skip(7))
        };
        match tl {
            None => None,
            Some(t) => {
                let p1 = 7 + t as int;
                if match_at(s, p1, " :"@) {
                    let k = trailing_len(s.skip(p1 + 2));
                    Some(((p1 + 2 + k) as nat, s.subrange(7, p1), s.subrange(p1 + 2, p1 + 2 + k)))
                } else {
                    None
                }
            },
        }
    }
}

pub fn valid_notice_message_parser<'a>(input: &'a str) -> (r: Option<
    (&'a str, IrcMessageSending),
>)
    ensures
        match r {
            Some(p) => match notice_parse(input@) {
                Some(q) => p.0@ == input@.skip(q.0 as int) && (p.1 matches
                    IrcMessageSending::NOTICE(target, text) && target@ == q.1 && text@ == q.2),
                None => false,
            },
            None => notice_parse(input@) is None,
        },
{
    proof {
        reveal_strlit("NOTICE ");
        reveal_strlit(" :");
    }
    if !tag_nocase_at(input, 0, "NOTICE ") {
        return None;
    }
    let _n = input.unicode_len();
    let t_end = match parsers::msgtarget_at(input, 7) {
        Some(e) => Some(e),
        None => parsers::targetmask_at(input, 7),
    };
    let t_end = match t_end {
        Some(e) => e,
        None => {
            return None;
        },
    };
    if !tag_at(input, t_end, " :") {
        return None;
    }
    let k_end = parsers::trailing_at(input, t_end + 2);
    let target = owned_sub(input, 7, t_end);
    let text = owned_sub(input, t_end + 2, k_end);
    let rest = rest_from(input, k_end);
    Some((rest, IrcMessageSending::NOTICE(target, text)))
}

/// PRIVMSG <msgtarget> :<text>
pub open spec fn privmsg_parse(s: Seq<char>) -> Option<(nat, Seq<char>, Seq<char>)> {
    if !match_nocase_at(s, 0, "PRIVMSG "@) {
        None
    } else {
        let tl: Option<nat> = if msgtarget_len(s.skip(8)) is Some {
            msgtarget_len(s.skip(8))
        } else {
            targetmask_len(s.skip(8))
        };
        match tl {
            None => None,
            Some(t) => {
                let p1 = 8 + t as int;
                if match_at(s, p1, " :"@) {
                    let k = trailing_len(s.skip(p1 + 2));
                    Some(((p1 + 2 + k) as nat, s.subrange(8, p1), s.subrange(p1 + 2, p1 + 2 + k)))
                } else {
                    None
                }
            },
        }
    }
}

pub fn valid_privmsg_message_parser<'a>(input: &'a str) -> (r: Option<
    (&'a str, IrcMessageSending),
>)
    ensures
        match r {
            Some(p) => match privmsg_parse(input@) {
                Some(q) => p.0@ == input@.skip(q.0 as int) && (p.1 matches
                    IrcMessageSending::PRIVMSG(target, text) && target@ == q.1 && text@ == q.2),
                None => false,
            },
            None => privmsg_parse(input@) is None,
        },
{
    proof {
        reveal_strlit("PRIVMSG ");
        reveal_strlit(" :");
    }
    if !tag_nocase_at(input, 0, "PRIVMSG ") {
        return None;
    }
    let _n = input.unicode_len();
    let t_end = match parsers::msgtarget_at(input, 8) {
        Some(e) => Some(e),
        None => parsers::targetmask_at(input, 8),
    };
    let t_end = match t_end {
        Some(e) => e,
        None => {
            return None;
        },
    };
    if !tag_at(input, t_end, " :") {
        return None;
    }
    let k_end = parsers::trailing_at(input, t_end + 2);
    let target = owned_sub(input, 8, t_end);
    let text = owned_sub(input, t_end + 2, k_end);
    let rest = rest_from(input, k_end);
    Some((rest, IrcMessageSending::PRIVMSG(target, text)))
}

impl IrcMessageSending {
    /// Recognizes the message sending commands the server implements.
    pub fn irc_command_parser<'a>(input: &'a str) -> (r: Option<(&'a str, IrcMessageSending)>)
        ensures
            match r {
                Some(p) => match privmsg_parse(input@) {
                    Some(q) => p.0@ == input@.skip(q.0 as int) && (p.1 matches
                        IrcMessageSending::PRIVMSG(target, text) && target@ == q.1 && text@
                        == q.2),
                    None => false,
                },
                None => privmsg_parse(input@) is None,
            },
    {
        valid_privmsg_message_parser(input)
    }
}

} // verus!
