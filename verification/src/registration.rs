//! Connection registration commands (RFC 2812 section 3.1): PASS, NICK,
//! USER in both its forms, OPER, MODE, SERVICE, QUIT and SQUIT.

use vstd::prelude::*;

use crate::grammar::{
    in_class, match_at, match_nocase_at, run_len, scan, space_like_char, tag_at,
    tag_nocase_at, CharClass,
};
use crate::grammar;
use crate::parsers::{
    host_len, hostname_len, mode_groups_ext, mode_number, nickname_len, owned_sub, rest_from,
    servername_len, trailing_len, user_len,
};
use crate::parsers;

verus! {

/// A registration command as it stands on the wire, described at the
/// specification level: each variant carries the views of its parameters.
pub enum RegParse {
    Pass(Seq<char>),
    Nick(Seq<char>),
    User1459(Seq<char>, Seq<char>),
    User2812(Seq<char>, nat, Seq<char>),
    Oper(Seq<char>, Seq<char>),
    Mode(Seq<char>, Seq<(char, Seq<char>)>),
    Service(Seq<char>, Seq<char>, Seq<char>, Seq<char>),
    Quit(Option<Seq<char>>),
    Squit(Seq<char>, Seq<char>),
}

/// PASS <password>, where the password holds at least one visible character.
pub open spec fn pass_parse(s: Seq<char>) -> Option<(nat, Seq<char>)> {
    if match_nocase_at(s, 0, "PASS "@) {
        let k = run_len(CharClass::NotCrlf, s.skip(5));
        if exists|j: int| 5 <= j < 5 + k && !space_like_char(s[j]) {
            Some(((5 + k) as nat, s.subrange(5, 5 + k as int)))
        } else {
            None
        }
    } else {
        None
    }
}

/// NICK <nickname>
pub open spec fn nick_parse(s: Seq<char>) -> Option<(nat, Seq<char>)> {
    if match_nocase_at(s, 0, "NICK "@) {
        match nickname_len(s.skip(5)) {
            Some(k) => Some(((5 + k) as nat, s.subrange(5, 5 + k as int))),
            None => None,
        }
    } else {
        None
    }
}

/// USER <user> <mode> <unused> :<realname>  (RFC 2812 form)
pub open spec fn user2812_parse(s: Seq<char>) -> Option<(nat, Seq<char>, nat, Seq<char>)> {
    if !match_nocase_at(s, 0, "USER "@) {
        None
    } else {
        match user_len(s.skip(5)) {
            None => None,
            Some(u) => {
                let p1 = 5 + u as int;
                if p1 < s.len() && s[p1] == ' ' {
                    match mode_number(s.skip(p1 + 1)) {
                        None => None,
                        Some(dv) => {
                            let p2 = p1 + 1 + dv.0;
                            if p2 < s.len() && s[p2 as int] == ' ' {
                                let w = run_len(CharClass::NotSpaceLike, s.skip(p2 as int + 1));
                                if w == 0 {
                                    None
                                } else {
                                    let p3 = p2 + 1 + w;
                                    if match_at(s, p3 as int, " :"@) {
                                        let t = trailing_len(s.skip(p3 as int + 2));
                                        Some(
                                            (
                                                (p3 + 2 + t) as nat,
                                                s.subrange(5, p1),
                                                dv.1,
                                                s.subrange(p3 as int + 2, p3 + 2 + t),
                                            ),
                                        )
                                    } else {
                                        None
                                    }
                                }
                            } else {
                                None
                            }
                        },
                    }
                } else {
                    None
                }
            },
        }
    }
}

/// USER <username> <hostname> <servername> :<realname>  (RFC 1459 form)
pub open spec fn user1459_parse(s: Seq<char>) -> Option<(nat, Seq<char>, Seq<char>)> {
    if !match_nocase_at(s, 0, "USER "@) {
        None
    } else {
        match user_len(s.skip(5)) {
            None => None,
            Some(u) => {
                let p1 = 5 + u as int;
                if p1 < s.len() && s[p1] == ' ' {
                    match hostname_len(s.skip(p1 + 1)) {
                        None => None,
                        Some(h) => {
                            let p2 = p1 + 1 + h;
                            if p2 < s.len() && s[p2 as int] == ' ' {
                                match servername_len(s.skip(p2 as int + 1)) {
                                    None => None,
                                    Some(v) => {
                                        let p3 = p2 + 1 + v;
                                        if match_at(s, p3 as int, " :"@) {
                                            let t = trailing_len(s.skip(p3 as int + 2));
                                            Some(
                                                (
                                                    (p3 + 2 + t) as nat,
                                                    s.subrange(5, p1),
                                                    s.subrange(p3 as int + 2, p3 + 2 + t),
                                                ),
                                            )
                                        } else {
                                            None
                                        }
                                    },
                                }
                            } else {
                                None
                            }
                        },
                    }
                } else {
                    None
                }
            },
        }
    }
}

/// OPER <name> <password>
pub open spec fn oper_parse(s: Seq<char>) -> Option<(nat, Seq<char>, Seq<char>)> {
    if !match_nocase_at(s, 0, "OPER "@) {
        None
    } else {
        let w = run_len(CharClass::NotSpaceLike, s.skip(5));
        if w == 0 {
            None
        } else {
            let p1 = 5 + w as int;
            let sp = run_len(CharClass::SpaceTab, s.skip(p1));
            if sp == 0 {
                None
            } else {
                let p2 = p1 + sp;
                let k = run_len(CharClass::NotCrlf, s.skip(p2 as int));
                if k == 0 {
                    None
                } else {
                    Some(
                        (
                            (p2 + k) as nat,
                            s.subrange(5, p1),
                            s.subrange(p2 as int, p2 + k),
                        ),
                    )
                }
            }
        }
    }
}

/// MODE <nickname> ( "+" / "-" ) 1*( "i" / "w" / "o" / "O" / "r" ) ...
pub open spec fn user_mode_parse(s: Seq<char>) -> Option<(nat, Seq<char>, Seq<(char, Seq<char>)>)> {
    if !match_nocase_at(s, 0, "MODE "@) {
        None
    } else {
        match nickname_len(s.skip(5)) {
            None => None,
            Some(nk) => {
                let p1 = 5 + nk as int;
                if p1 < s.len() && s[p1] == ' ' {
                    let g = mode_groups_ext(CharClass::UserModeFlag, s.skip(p1 + 1));
                    if g.1.len() == 0 {
                        None
                    } else {
                        Some(((p1 + 1 + g.0) as nat, s.subrange(5, p1), g.1))
                    }
                } else {
                    None
                }
            },
        }
    }
}

/// SERVICE <nickname> <reserved> <distribution> <type> <reserved> :<info>
pub open spec fn service_parse(s: Seq<char>) -> Option<
    (nat, Seq<char>, Seq<char>, Seq<char>, Seq<char>),
> {
    if !match_nocase_at(s, 0, "SERVICE "@) {
        None
    } else {
        match nickname_len(s.skip(8)) {
            None => None,
            Some(nk) => {
                let p0 = 8 + nk as int;
                match word_after_space(s, p0) {
                    None => None,
                    Some(p1) => match word_after_space(s, p1.1) {
                        None => None,
                        Some(p2) => match word_after_space(s, p2.1) {
                            None => None,
                            Some(p3) => match word_after_space(s, p3.1) {
                                None => None,
                                Some(p4) => if match_at(s, p4.1, " :"@) {
                                    let t = trailing_len(s.skip(p4.1 + 2));
                                    Some(
                                        (
                                            (p4.1 + 2 + t) as nat,
                                            s.subrange(8, p0),
                                            s.subrange(p2.0, p2.1),
                                            s.subrange(p3.0, p3.1),
                                            s.subrange(p4.1 + 2, p4.1 + 2 + t),
                                        ),
                                    )
                                } else {
                                    None
                                },
                            },
                        },
                    },
                }
            },
        }
    }
}

/// After position `p`, a single space and then a non-empty run of characters
/// that are not whitespace; gives the start and end of that run.
pub open spec fn word_after_space(s: Seq<char>, p: int) -> Option<(int, int)> {
    if 0 <= p < s.len() && s[p] == ' ' {
        let w = run_len(CharClass::NotSpaceLike, s.skip(p + 1));
        if w == 0 {
            None
        } else {
            Some((p + 1, p + 1 + w))
        }
    } else {
        None
    }
}

/// QUIT [ :<message> ]
pub open spec fn quit_parse(s: Seq<char>) -> Option<(nat, Option<Seq<char>>)> {
    if !match_nocase_at(s, 0, "QUIT"@) {
        None
    } else if match_at(s, 4, " :"@) {
        let k = run_len(CharClass::NotCrlf, s.skip(6));
        Some(((6 + k) as nat, Some(s.subrange(6, 6 + k as int))))
    } else {
        Some((4, None))
    }
}

/// SQUIT <server> :<comment>
pub open spec fn squit_parse(s: Seq<char>) -> Option<(nat, Seq<char>, Seq<char>)> {
    if !match_nocase_at(s, 0, "SQUIT "@) {
        None
    } else {
        match host_len(s.skip(6)) {
            None => None,
            Some(h) => {
                let p1 = 6 + h as int;
                if match_at(s, p1, " :"@) {
                    let k = run_len(CharClass::NotCrlf, s.skip(p1 + 2));
                    Some(((p1 + 2 + k) as nat, s.subrange(6, p1), s.subrange(p1 + 2, p1 + 2 + k)))
                } else {
                    None
                }
            },
        }
    }
}

/// The alternatives of the registration grammar, tried in order.
pub open spec fn registration_parse(s: Seq<char>) -> Option<(nat, RegParse)> {
    if pass_parse(s) is Some {
        let p = pass_parse(s).unwrap();
        Some((p.0, RegParse::Pass(p.1)))
    } else if nick_parse(s) is Some {
        let p = nick_parse(s).unwrap();
        Some((p.0, RegParse::Nick(p.1)))
    } else if user2812_parse(s) is Some {
        let p = user2812_parse(s).unwrap();
        Some((p.0, RegParse::User2812(p.1, p.2, p.3)))
    } else if user1459_parse(s) is Some {
        let p = user1459_parse(s).unwrap();
        Some((p.0, RegParse::User1459(p.1, p.2)))
    } else if oper_parse(s) is Some {
        let p = oper_parse(s).unwrap();
        Some((p.0, RegParse::Oper(p.1, p.2)))
    } else if user_mode_parse(s) is Some {
        let p = user_mode_parse(s).unwrap();
        Some((p.0, RegParse::Mode(p.1, p.2)))
    } else if service_parse(s) is Some {
        let p = service_parse(s).unwrap();
        Some((p.0, RegParse::Service(p.1, p.2, p.3, p.4)))
    } else if quit_parse(s) is Some {
        let p = quit_parse(s).unwrap();
        Some((p.0, RegParse::Quit(p.1)))
    } else if squit_parse(s) is Some {
        let p = squit_parse(s).unwrap();
        Some((p.0, RegParse::Squit(p.1, p.2)))
    } else {
        None
    }
}

/// A parsed registration command with its owned parameters.
#[derive(Debug, PartialEq)]
pub enum IrcConnectionRegistration {
    PASS(String),
    NICK(String),
    #[allow(non_camel_case_types)]
    USER_RFC_1459(String, String),
    #[allow(non_camel_case_types)]
    USER_RFC_2812(String, u8, String),
    OPER(String, String),
    MODE(String, Vec<(char, Vec<char>)>),
    SERVICE(String, String, String, String),
    QUIT(Option<String>),
    SQUIT(String, String),
}

/// The executable value carries exactly the fields of its specification view.
pub open spec fn reg_matches(c: IrcConnectionRegistration, v: RegParse) -> bool {
    match (c, v) {
        (IrcConnectionRegistration::PASS(a), RegParse::Pass(x)) => a@ == x,
        (IrcConnectionRegistration::NICK(a), RegParse::Nick(x)) => a@ == x,
        (IrcConnectionRegistration::USER_RFC_1459(a, b), RegParse::User1459(x, y)) => a@ == x && b@
            == y,
        (IrcConnectionRegistration::USER_RFC_2812(a, m, b), RegParse::User2812(x, mv, y)) => a@ == x
            && m as nat == mv && b@ == y,
        (IrcConnectionRegistration::OPER(a, b), RegParse::Oper(x, y)) => a@ == x && b@ == y,
        (IrcConnectionRegistration::MODE(a, g), RegParse::Mode(x, gs)) => a@ == x && g@.len()
            == gs.len() && (forall|i: int|
            0 <= i < gs.len() ==> (#[trigger] g@[i]).0 == gs[i].0 && g@[i].1@ == gs[i].1),
        (IrcConnectionRegistration::SERVICE(a, b, c2, d), RegParse::Service(x, y, z, w)) => a@ == x
            && b@ == y && c2@ == z && d@ == w,
        (IrcConnectionRegistration::QUIT(a), RegParse::Quit(x)) => match (a, x) {
            (Some(m), Some(mx)) => m@ == mx,
            (None, None) => true,
            _ => false,
        },
        (IrcConnectionRegistration::SQUIT(a, b), RegParse::Squit(x, y)) => a@ == x && b@ == y,
        _ => false,
    }
}

pub fn valid_password_message_parser<'a>(input: &'a str) -> (r: Option<
    (&'a str, IrcConnectionRegistration),
>)
    ensures
        match r {
            Some(p) => match pass_parse(input@) {
                Some(q) => p.0@ == input@.skip(q.0 as int) && reg_matches(
                    p.1,
                    RegParse::Pass(q.1),
                ),
                None => false,
            },
            None => pass_parse(input@) is None,
        },
{
    proof {
        reveal_strlit("PASS ");
    }
    if !tag_nocase_at(input, 0, "PASS ") {
        return None;
    }
    let e = scan(input, 5, CharClass::NotCrlf);
    let sp = scan(input, 5, CharClass::SpaceLike);
    proof {
        grammar::lemma_run_len(CharClass::NotCrlf, input@.skip(5));
        grammar::lemma_run_len(CharClass::SpaceLike, input@.skip(5));
        assert forall|j: int| 0 <= j < input@.len() - 5 implies #[trigger] input@.skip(5)[j]
            == input@[5 + j] by {}
    }
    if sp >= e {
        proof {
            assert forall|j: int| 5 <= j < e implies space_like_char(#[trigger] input@[j]) by {
                assert(in_class(CharClass::SpaceLike, input@.skip(5)[j - 5]));
            }
        }
        return None;
    }
    proof {
        assert(!in_class(CharClass::SpaceLike, input@.skip(5)[sp - 5]));
        assert(!space_like_char(input@[sp as int]));
    }
    let password = owned_sub(input, 5, e);
    let rest = rest_from(input, e);
    Some((rest, IrcConnectionRegistration::PASS(password)))
}

pub fn valid_nick_message_parser<'a>(input: &'a str) -> (r: Option<
    (&'a str, IrcConnectionRegistration),
>)
    ensures
        match r {
            Some(p) => match nick_parse(input@) {
                Some(q) => p.0@ == input@.skip(q.0 as int) && reg_matches(
                    p.1,
                    RegParse::Nick(q.1),
                ),
                None => false,
            },
            None => nick_parse(input@) is None,
        },
{
    proof {
        reveal_strlit("NICK ");
    }
    if !tag_nocase_at(input, 0, "NICK ") {
        return None;
    }
    match parsers::nickname_at(input, 5) {
        Some(e) => {
            let nick = owned_sub(input, 5, e);
            let rest = rest_from(input, e);
            Some((rest, IrcConnectionRegistration::NICK(nick)))
        },
        None => None,
    }
}


pub fn valid_user_message_rfc2812_parser<'a>(input: &'a str) -> (r: Option<
    (&'a str, IrcConnectionRegistration),
>)
    ensures
        match r {
            Some(p) => match user2812_parse(input@) {
                Some(q) => p.0@ == input@.skip(q.0 as int) && reg_matches(
                    p.1,
                    RegParse::User2812(q.1, q.2, q.3),
                ),
                None => false,
            },
            None => user2812_parse(input@) is None,
        },
{
    proof {
        reveal_strlit("USER ");
        reveal_strlit(" :");
    }
    if !tag_nocase_at(input, 0, "USER ") {
        return None;
    }
    let _n = input.unicode_len();
    let u_end = match parsers::user_at(input, 5) {
        Some(e) => e,
        None => {
            return None;
        },
    };
    if !parsers::char_at_is(input, u_end, ' ') {
        return None;
    }
    let (d_end, modeval) = match parsers::mode_number_at(input, u_end + 1) {
        Some(p) => p,
        None => {
            return None;
        },
    };
    if !parsers::char_at_is(input, d_end, ' ') {
        return None;
    }
    let w_end = scan(input, d_end + 1, CharClass::NotSpaceLike);
    if w_end == d_end + 1 {
        return None;
    }
    if !tag_at(input, w_end, " :") {
        return None;
    }
    let t_end = parsers::trailing_at(input, w_end + 2);
    let username = owned_sub(input, 5, u_end);
    let realname = owned_sub(input, w_end + 2, t_end);
    let rest = rest_from(input, t_end);
    Some((rest, IrcConnectionRegistration::USER_RFC_2812(username, modeval, realname)))
}

pub fn valid_user_message_rfc1459_parser<'a>(input: &'a str) -> (r: Option<
    (&'a str, IrcConnectionRegistration),
>)
    ensures
        match r {
            Some(p) => match user1459_parse(input@) {
                Some(q) => p.0@ == input@.skip(q.0 as int) && reg_matches(
                    p.1,
                    RegParse::User1459(q.1, q.2),
                ),
                None => false,
            },
            None => user1459_parse(input@) is None,
        },
{
    proof {
        reveal_strlit("USER ");
        reveal_strlit(" :");
    }
    if !tag_nocase_at(input, 0, "USER ") {
        return None;
    }
    let _n = input.unicode_len();
    let u_end = match parsers::user_at(input, 5) {
        Some(e) => e,
        None => {
            return None;
        },
    };
    if !parsers::char_at_is(input, u_end, ' ') {
        return None;
    }
    let h_end = match parsers::hostname_at(input, u_end + 1) {
        Some(e) => e,
        None => {
            return None;
        },
    };
    if !parsers::char_at_is(input, h_end, ' ') {
        return None;
    }
    let v_end = match parsers::hostname_at(input, h_end + 1) {
        Some(e) => e,
        None => {
            return None;
        },
    };
    if !tag_at(input, v_end, " :") {
        return None;
    }
    let t_end = parsers::trailing_at(input, v_end + 2);
    let username = owned_sub(input, 5, u_end);
    let realname = owned_sub(input, v_end + 2, t_end);
    let rest = rest_from(input, t_end);
    Some((rest, IrcConnectionRegistration::USER_RFC_1459(username, realname)))
}

pub fn valid_oper_message_parser<'a>(input: &'a str) -> (r: Option<
    (&'a str, IrcConnectionRegistration),
>)
    ensures
        match r {
            Some(p) => match oper_parse(input@) {
                Some(q) => p.0@ == input@.skip(q.0 as int) && reg_matches(
                    p.1,
                    RegParse::Oper(q.1, q.2),
                ),
                None => false,
            },
            None => oper_parse(input@) is None,
        },
{
    proof {
        reveal_strlit("OPER ");
    }
    if !tag_nocase_at(input, 0, "OPER ") {
        return None;
    }
    let w_end = scan(input, 5, CharClass::NotSpaceLike);
    if w_end == 5 {
        return None;
    }
    let sp_end = scan(input, w_end, CharClass::SpaceTab);
    if sp_end == w_end {
        return None;
    }
    let k_end = scan(input, sp_end, CharClass::NotCrlf);
    if k_end == sp_end {
        return None;
    }
    let name = owned_sub(input, 5, w_end);
    let password = owned_sub(input, sp_end, k_end);
    let rest = rest_from(input, k_end);
    Some((rest, IrcConnectionRegistration::OPER(name, password)))
}

pub fn valid_mode_message_parser<'a>(input: &'a str) -> (r: Option<
    (&'a str, IrcConnectionRegistration),
>)
    ensures
        match r {
            Some(p) => match user_mode_parse(input@) {
                Some(q) => p.0@ == input@.skip(q.0 as int) && reg_matches(
                    p.1,
                    RegParse::Mode(q.1, q.2),
                ),
                None => false,
            },
            None => user_mode_parse(input@) is None,
        },
{
    proof {
        reveal_strlit("MODE ");
    }
    if !tag_nocase_at(input, 0, "MODE ") {
        return None;
    }
    let nk_end = match parsers::nickname_at(input, 5) {
        Some(e) => e,
        None => {
            return None;
        },
    };
    if !parsers::char_at_is(input, nk_end, ' ') {
        return None;
    }
    let (g_end, groups) = parsers::mode_groups_at(input, nk_end + 1, CharClass::UserModeFlag);
    if groups.is_empty() {
        return None;
    }
    let nick = owned_sub(input, 5, nk_end);
    let rest = rest_from(input, g_end);
    Some((rest, IrcConnectionRegistration::MODE(nick, groups)))
}

pub fn valid_service_message_parser<'a>(input: &'a str) -> (r: Option<
    (&'a str, IrcConnectionRegistration),
>)
    ensures
        match r {
            Some(p) => match service_parse(input@) {
                Some(q) => p.0@ == input@.skip(q.0 as int) && reg_matches(
                    p.1,
                    RegParse::Service(q.1, q.2, q.3, q.4),
                ),
                None => false,
            },
            None => service_parse(input@) is None,
        },
{
    proof {
        reveal_strlit("SERVICE ");
        reveal_strlit(" :");
    }
    if !tag_nocase_at(input, 0, "SERVICE ") {
        return None;
    }
    let _n = input.unicode_len();
    let nk_end = match parsers::nickname_at(input, 8) {
        Some(e) => e,
        None => {
            return None;
        },
    };
    let w1 = match word_after_space_at(input, nk_end) {
        Some(e) => e,
        None => {
            return None;
        },
    };
    let w2 = match word_after_space_at(input, w1.1) {
        Some(e) => e,
        None => {
            return None;
        },
    };
    let w3 = match word_after_space_at(input, w2.1) {
        Some(e) => e,
        None => {
            return None;
        },
    };
    let w4 = match word_after_space_at(input, w3.1) {
        Some(e) => e,
        None => {
            return None;
        },
    };
    if !tag_at(input, w4.1, " :") {
        return None;
    }
    let t_end = parsers::trailing_at(input, w4.1 + 2);
    let nickname = owned_sub(input, 8, nk_end);
    let distribution = owned_sub(input, w2.0, w2.1);
    let service_type = owned_sub(input, w3.0, w3.1);
    let info = owned_sub(input, w4.1 + 2, t_end);
    let rest = rest_from(input, t_end);
    Some((rest, IrcConnectionRegistration::SERVICE(nickname, distribution, service_type, info)))
}

fn word_after_space_at(s: &str, p: usize) -> (r: Option<(usize, usize)>)
    requires
        p <= s@.len(),
    ensures
        match r {
            Some(q) => p < q.0 <= q.1 <= s@.len() && word_after_space(s@, p as int) == Some(
                ((q.0 as int, q.1 as int)),
            ),
            None => word_after_space(s@, p as int) is None,
        },
{
    if !parsers::char_at_is(s, p, ' ') {
        return None;
    }
    let _n = s.unicode_len();
    let w = scan(s, p + 1, CharClass::NotSpaceLike);
    if w == p + 1 {
        return None;
    }
    Some((p + 1, w))
}

pub fn valid_quit_message_parser<'a>(input: &'a str) -> (r: Option<
    (&'a str, IrcConnectionRegistration),
>)
    ensures
        match r {
            Some(p) => match quit_parse(input@) {
                Some(q) => p.0@ == input@.skip(q.0 as int) && reg_matches(
                    p.1,
                    RegParse::Quit(q.1),
                ),
                None => false,
            },
            None => quit_parse(input@) is None,
        },
{
    proof {
        reveal_strlit("QUIT");
        reveal_strlit(" :");
    }
    if !tag_nocase_at(input, 0, "QUIT") {
        return None;
    }
    if tag_at(input, 4, " :") {
        let k_end = scan(input, 6, CharClass::NotCrlf);
        let message = owned_sub(input, 6, k_end);
        let rest = rest_from(input, k_end);
        Some((rest, IrcConnectionRegistration::QUIT(Some(message))))
    } else {
        let rest = rest_from(input, 4);
        Some((rest, IrcConnectionRegistration::QUIT(None)))
    }
}

pub fn valid_squit_message_parser<'a>(input: &'a str) -> (r: Option<
    (&'a str, IrcConnectionRegistration),
>)
    ensures
        match r {
            Some(p) => match squit_parse(input@) {
                Some(q) => p.0@ == input@.skip(q.0 as int) && reg_matches(
                    p.1,
                    RegParse::Squit(q.1, q.2),
                ),
                None => false,
            },
            None => squit_parse(input@) is None,
        },
{
    proof {
        reveal_strlit("SQUIT ");
        reveal_strlit(" :");
    }
    if !tag_nocase_at(input, 0, "SQUIT ") {
        return None;
    }
    let _n = input.unicode_len();
    let h_end = match parsers::host_at(input, 6) {
        Some(e) => e,
        None => {
            return None;
        },
    };
    if !tag_at(input, h_end, " :") {
        return None;
    }
    let k_end = scan(input, h_end + 2, CharClass::NotCrlf);
    let server = owned_sub(input, 6, h_end);
    let comment = owned_sub(input, h_end + 2, k_end);
    let rest = rest_from(input, k_end);
    Some((rest, IrcConnectionRegistration::SQUIT(server, comment)))
}

impl IrcConnectionRegistration {
    /// Tries the registration alternatives in their grammar order.
    pub fn irc_command_parser<'a>(input: &'a str) -> (r: Option<
        (&'a str, IrcConnectionRegistration),
    >)
        ensures
            match r {
                Some(p) => match registration_parse(input@) {
                    Some(q) => p.0@ == input@.skip(q.0 as int) && reg_matches(p.1, q.1),
                    None => false,
                },
                None => registration_parse(input@) is None,
            },
    {
        if let Some(p) = valid_password_message_parser(input) {
            return Some(p);
        }
        if let Some(p) = valid_nick_message_parser(input) {
            return Some(p);
        }
        if let Some(p) = valid_user_message_rfc2812_parser(input) {
            return Some(p);
        }
        if let Some(p) = valid_user_message_rfc1459_parser(input) {
            return Some(p);
        }
        if let Some(p) = valid_oper_message_parser(input) {
            return Some(p);
        }
        if let Some(p) = valid_mode_message_parser(input) {
            return Some(p);
        }
        if let Some(p) = valid_service_message_parser(input) {
            return Some(p);
        }
        if let Some(p) = valid_quit_message_parser(input) {
            return Some(p);
        }
        if let Some(p) = valid_squit_message_parser(input) {
            return Some(p);
        }
        None
    }
}

} // verus!
