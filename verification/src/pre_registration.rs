//! Capability negotiation (CAP) before registration: the server answers
//! CAP LS and CAP LIST with its capability set, and CAP END closes the
//! negotiation.

use vstd::prelude::*;

use crate::grammar::{match_nocase_at, run_len, scan, tag_nocase_at, CharClass};
use crate::parsers::rest_from;

verus! {

/// A capability negotiation command.
#[derive(Debug, PartialEq)]
pub enum IrcCapPreRegistration {
    LS,
    LIST,
    REQ(String),
    ACK(String),
    NACK(String),
    CLEAR(String),
    END,
}

/// The CAP subcommands the server implements, at the specification level.
pub enum CapParse {
    Ls,
    List,
    End,
}

/// CAP LS, CAP LIST or CAP END, each followed by anything up to the line end.
pub open spec fn cap_parse(s: Seq<char>) -> Option<(nat, CapParse)> {
    if match_nocase_at(s, 0, "CAP LS"@) {
        Some(((6 + run_len(CharClass::NotCrlf, s.skip(6))) as nat, CapParse::Ls))
    } else if match_nocase_at(s, 0, "CAP LIST"@) {
        Some(((8 + run_len(CharClass::NotCrlf, s.skip(8))) as nat, CapParse::List))
    } else if match_nocase_at(s, 0, "CAP END"@) {
        Some(((7 + run_len(CharClass::NotCrlf, s.skip(7))) as nat, CapParse::End))
    } else {
        None
    }
}

pub open spec fn cap_matches(c: IrcCapPreRegistration, v: CapParse) -> bool {
    match (c, v) {
        (IrcCapPreRegistration::LS, CapParse::Ls) => true,
        (IrcCapPreRegistration::LIST, CapParse::List) => true,
        (IrcCapPreRegistration::END, CapParse::End) => true,
        _ => false,
    }
}

impl IrcCapPreRegistration {
    /// Recognizes the CAP subcommands LS, LIST and END.
    pub fn irc_cap_parser<'a>(input: &'a str) -> (r: Option<(&'a str, IrcCapPreRegistration)>)
        ensures
            match r {
                Some(p) => match cap_parse(input@) {
                    Some(q) => p.0@ == input@.skip(q.0 as int) && cap_matches(p.1, q.1),
                    None => false,
                },
                None => cap_parse(input@) is None,
            },
    {
        proof {
            reveal_strlit("CAP LS");
            reveal_strlit("CAP LIST");
            reveal_strlit("CAP END");
        }
        if tag_nocase_at(input, 0, "CAP LS") {
            let e = scan(input, 6, CharClass::NotCrlf);
            return Some((rest_from(input, e), IrcCapPreRegistration::LS));
        }
        if tag_nocase_at(input, 0, "CAP LIST") {
            let e = scan(input, 8, CharClass::NotCrlf);
            return Some((rest_from(input, e), IrcCapPreRegistration::LIST));
        }
        if tag_nocase_at(input, 0, "CAP END") {
            let e = scan(input, 7, CharClass::NotCrlf);
            return Some((rest_from(input, e), IrcCapPreRegistration::END));
        }
        None
    }
}

} // verus!
