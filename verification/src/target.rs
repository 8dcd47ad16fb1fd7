//! Classification of message targets and pairing of JOIN parameters.

use vstd::prelude::*;

use crate::parsers::{channel_len, nickname_len};
use crate::parsers;
use crate::types::{ChannelName, MessageTo, Nickname, TargetMask};

verus! {

/// Splits a PRIVMSG target list on commas and classifies each target:
/// channel names and bare nicknames exactly, and every other recognized
/// form as a mask target, which the message handler refuses per target.
pub fn parse_targets(input: &str) -> (r: Vec<MessageTo>)
    ensures
        channel_len(input@) == Some(input@.len()) ==> r@.len() == 1 && (r@[0] matches
            MessageTo::ChannelName(c) && c@ == input@),
        channel_len(input@) is None && nickname_len(input@) == Some(input@.len()) ==> r@.len()
            == 1 && (r@[0] matches MessageTo::Nickname(n) && n@ == input@),
{
    let n = input.unicode_len();
    let mut out: Vec<MessageTo> = Vec::new();
    let mut i: usize = 0;
    let ghost whole = input@;
    while i < n
        invariant
            0 <= i <= n,
            n == input@.len(),
            whole == input@,
            (channel_len(whole) == Some(whole.len()) && whole.len() > 0 && i > 0) ==> (i == n
                && out@.len() == 1 && (out@[0] matches MessageTo::ChannelName(c) && c@ == whole)),
            (channel_len(whole) is None && nickname_len(whole) == Some(whole.len())
                && whole.len() > 0 && i > 0) ==> (i == n && out@.len() == 1 && (out@[0] matches
                MessageTo::Nickname(nk) && nk@ == whole)),
            i == 0 ==> out@.len() == 0,
        decreases n - i,
    {
        proof {
            assert(input@.skip(0) =~= input@);
        }
        let seg_end = match parsers::channel_at(input, i) {
            Some(e) => {
                proof {
                    if e == n {
                        assert(input@.subrange(i as int, e as int) =~= input@.skip(i as int));
                        if i == 0 {
                            assert(input@.subrange(0, e as int) =~= input@);
                        }
                    }
                }
                let name = parsers::owned_sub(input, i, e);
                out.push(MessageTo::ChannelName(ChannelName(name)));
                e
            },
            None => match parsers::nickname_at(input, i) {
                Some(e) => {
                    let until = if e == n {
                        true
                    } else {
                        parsers::char_at_is(input, e, ',')
                    };
                    if until {
                        proof {
                            if e == n && i == 0 {
                                assert(input@.subrange(0, e as int) =~= input@);
                            }
                        }
                        let name = parsers::owned_sub(input, i, e);
                        out.push(MessageTo::Nickname(Nickname(name)));
                        e
                    } else {
                        let e2 = scan_to_comma(input, i);
                        let raw = parsers::owned_sub(input, i, e2);
                        out.push(MessageTo::TargetMask(TargetMask(raw)));
                        e2
                    }
                },
                None => {
                    let e2 = scan_to_comma(input, i);
                    let raw = parsers::owned_sub(input, i, e2);
                    out.push(MessageTo::TargetMask(TargetMask(raw)));
                    e2
                },
            },
        };
        let mut next = seg_end;
        if next < n {
            if parsers::char_at_is(input, next, ',') {
                next = next + 1;
            } else {
                next = scan_to_comma(input, next);
                if next < n {
                    next = next + 1;
                }
            }
        }
        if next <= i {
            // a target of no width cannot stand; stop rather than loop
            return out;
        }
        i = next;
    }
    proof {
        if input@.len() == 0 {
            reveal(crate::parsers::channel_len);
            assert(crate::parsers::channel_prefix_len(input@) is None);
            assert(channel_len(input@) is None);
        }
    }
    out
}

/// The position of the next comma at or after `from`, or the end.
fn scan_to_comma(s: &str, from: usize) -> (r: usize)
    requires
        from <= s@.len(),
    ensures
        from <= r <= s@.len(),
{
    let n = s.unicode_len();
    let mut i = from;
    while i < n
        invariant
            from <= i <= n,
            n == s@.len(),
        decreases n - i,
    {
        if s.get_char(i) == ',' {
            return i;
        }
        i = i + 1;
    }
    n
}

/// Pairs each JOIN channel with its key, where one was given.
pub fn pair_channels_keys(chans: Vec<String>, keys: Option<Vec<String>>) -> (r: Vec<
    (ChannelName, Option<String>),
>)
    ensures
        r@.len() == chans@.len(),
        forall|i: int| 0 <= i < chans@.len() ==> (#[trigger] r@[i]).0.0 == chans@[i],
        forall|i: int|
            0 <= i < chans@.len() ==> (#[trigger] r@[i]).1 == (match keys {
                Some(ks) => if i < ks@.len() {
                    Some(ks@[i])
                } else {
                    None
                },
                None => None,
            }),
{
    let mut out: Vec<(ChannelName, Option<String>)> = Vec::new();
    let kn = chans.len();
    let mut i: usize = 0;
    while i < kn
        invariant
            0 <= i <= kn,
            kn == chans@.len(),
            out@.len() == i,
            forall|x: int| 0 <= x < i ==> (#[trigger] out@[x]).0.0 == chans@[x],
            forall|x: int|
                0 <= x < i ==> (#[trigger] out@[x]).1 == (match keys {
                    Some(ks) => if x < ks@.len() {
                        Some(ks@[x])
                    } else {
                        None
                    },
                    None => None,
                }),
        decreases kn - i,
    {
        let key = match &keys {
            Some(ks) => if i < ks.len() {
                Some(ks[i].clone())
            } else {
                None
            },
            None => None,
        };
        out.push((ChannelName(chans[i].clone()), key));
        i = i + 1;
    }
    out
}

} // verus!
