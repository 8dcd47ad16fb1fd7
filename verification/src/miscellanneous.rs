//! Miscellaneous commands: PING with its server parameters, and the
//! fallback that recognizes the leading word of an unknown command.

use vstd::prelude::*;

use crate::grammar::{match_nocase_at, run_len, scan, CharClass};
use crate::grammar;
use crate::parsers::{host_len, owned_sub, rest_from, strings_match};
use crate::parsers;

verus! {

/// A miscellaneous command.
pub enum IrcMiscellaneousMessages {
    KILL,
    PING(Vec<String>),
    PONG,
    ERROR,
}

/// Greedy repetition of ( " " host ) behind PING.
pub open spec fn ping_ext(s: Seq<char>) -> (nat, Seq<Seq<char>>)
    decreases s.len(),
{
    if s.len() >= 2 && s[0] == ' ' {
        match host_len(s.skip(1)) {
            Some(h) => if 1 <= h && 1 + h <= s.len() {
                let rest = ping_ext(s.skip(1 + h as int));
                ((1 + h + rest.0) as nat, seq![s.subrange(1, 1 + h as int)] + rest.1)
            } else {
                (0, Seq::empty())
            },
            None => (0, Seq::empty()),
        }
    } else {
        (0, Seq::empty())
    }
}

/// PING <server1> *( " " <server> ), at least one server.
pub open spec fn ping_parse(s: Seq<char>) -> Option<(nat, Seq<Seq<char>>)> {
    if match_nocase_at(s, 0, "PING"@) {
        let ext = ping_ext(s.skip(4));
        if ext.1.len() == 0 {
            None
        } else {
            Some(((4 + ext.0) as nat, ext.1))
        }
    } else {
        None
    }
}

pub fn valid_ping_parser<'a>(input: &'a str) -> (r: Option<(&'a str, IrcMiscellaneousMessages)>)
    ensures
        match r {
            Some(p) => match ping_parse(input@) {
                Some(q) => p.0@ == input@.skip(q.0 as int) && (p.1 matches
                    IrcMiscellaneousMessages::PING(servers) && strings_match(servers@, q.1)),
                None => false,
            },
            None => ping_parse(input@) is None,
        },
{
    proof {
        reveal_strlit("PING");
    }
    if !grammar::tag_nocase_at(input, 0, "PING") {
        return None;
    }
    let n = input.unicode_len();
    let mut servers: Vec<String> = Vec::new();
    let ghost names: Seq<Seq<char>> = Seq::empty();
    let mut e: usize = 4;
    loop
        invariant
            4 <= e <= n,
            n == input@.len(),
            servers@.len() == names.len(),
            forall|i: int| 0 <= i < names.len() ==> #[trigger] servers@[i]@ == names[i],
            ping_ext(input@.skip(4)).0 == (e - 4) + ping_ext(input@.skip(e as int)).0,
            ping_ext(input@.skip(4)).1 =~= names + ping_ext(input@.skip(e as int)).1,
        ensures
            4 <= e <= n,
            servers@.len() == names.len(),
            forall|i: int| 0 <= i < names.len() ==> #[trigger] servers@[i]@ == names[i],
            ping_ext(input@.skip(4)).0 == (e - 4) as nat,
            ping_ext(input@.skip(4)).1 =~= names,
        decreases n - e,
    {
        proof {
            if e < n {
                assert(input@.skip(e as int)[0] == input@[e as int]);
            } else {
                assert(input@.skip(e as int) =~= Seq::<char>::empty());
            }
        }
        if !parsers::char_at_is(input, e, ' ') {
            break ;
        }
        proof {
            assert(input@.skip(e as int).skip(1) =~= input@.skip(e as int + 1));
        }
        match parsers::host_at(input, e + 1) {
            Some(e2) => {
                proof {
                    assert(input@.skip(e as int).len() >= 2);
                    assert(input@.skip(e as int).skip((e2 - e) as int) =~= input@.skip(e2 as int));
                    assert(input@.skip(e as int).subrange(1, (e2 - e) as int) =~= input@.subrange(
                        e as int + 1,
                        e2 as int,
                    ));
                }
                servers.push(owned_sub(input, e + 1, e2));
                proof {
                    names = names + seq![input@.subrange(e as int + 1, e2 as int)];
                }
                e = e2;
            },
            None => {
                break ;
            },
        }
    }
    if servers.is_empty() {
        return None;
    }
    let rest = rest_from(input, e);
    Some((rest, IrcMiscellaneousMessages::PING(servers)))
}

impl IrcMiscellaneousMessages {
    /// Recognizes the miscellaneous commands the server implements.
    pub fn irc_command_parser<'a>(input: &'a str) -> (r: Option<
        (&'a str, IrcMiscellaneousMessages),
    >)
        ensures
            match r {
                Some(p) => match ping_parse(input@) {
                    Some(q) => p.0@ == input@.skip(q.0 as int) && (p.1 matches
                        IrcMiscellaneousMessages::PING(servers) && strings_match(servers@, q.1)),
                    None => false,
                },
                None => ping_parse(input@) is None,
            },
    {
        valid_ping_parser(input)
    }
}

/// The leading word of a line that matched no command grammar.
#[derive(Debug)]
pub struct IrcUnknownCommand(pub String);

/// Everything up to the first space is the unknown command's name.
pub open spec fn unknown_parse(s: Seq<char>) -> (nat, Seq<char>) {
    let k = run_len(CharClass::NotSpace, s);
    (k, s.subrange(0, k as int))
}

pub fn unknwon_command_parser<'a>(input: &'a str) -> (r: (&'a str, IrcUnknownCommand))
    ensures
        r.0@ == input@.skip(unknown_parse(input@).0 as int),
        r.1.0@ == unknown_parse(input@).1,
{
    proof {
        assert(input@.skip(0) =~= input@);
    }
    let e = scan(input, 0, CharClass::NotSpace);
    let word = owned_sub(input, 0, e);
    (rest_from(input, e), IrcUnknownCommand(word))
}

impl IrcUnknownCommand {
    /// Splits off the leading word of an unrecognized line.
    pub fn irc_command_parser<'a>(input: &'a str) -> (r: (&'a str, IrcUnknownCommand))
        ensures
            r.0@ == input@.skip(unknown_parse(input@).0 as int),
            r.1.0@ == unknown_parse(input@).1,
    {
        unknwon_command_parser(input)
    }
}

} // verus!
