//! Token parsers of the message grammar (RFC 2812 section 2.3.1).
//!
//! Each token has a specification function giving the number of characters
//! it consumes from the front of its input (`None` when it does not match),
//! and an executable parser proved to return the remainder and the matched
//! prefix of exactly that length.

use vstd::prelude::*;

use crate::grammar::{
    ascii_alnum, ascii_digit, chan_char, channelid_char, in_class, match_at, nick_first_char,
    nospcrlfcl_char, run_len, scan, tag_at, wildcard_char, CharClass,
};
use crate::grammar;

verus! {

// ---------------------------------------------------------------------------
// Shared executable helpers
// ---------------------------------------------------------------------------

pub(crate) fn char_at_is(s: &str, i: usize, c: char) -> (r: bool)
    requires
        i <= s@.len(),
    ensures
        r == (i < s@.len() && s@[i as int] == c),
{
    if i < s.unicode_len() {
        s.get_char(i) == c
    } else {
        false
    }
}

fn is_alnum_c(c: char) -> (r: bool)
    ensures
        r == ascii_alnum(c),
{
    ('a' <= c && c <= 'z') || ('A' <= c && c <= 'Z') || ('0' <= c && c <= '9')
}

fn is_nospcrlfcl_c(c: char) -> (r: bool)
    ensures
        r == nospcrlfcl_char(c),
{
    grammar::is_nospcrlfcl(((c as u32) % 256) as u8)
}

fn is_nick_first_c(c: char) -> (r: bool)
    ensures
        r == nick_first_char(c),
{
    ('a' <= c && c <= 'z') || ('A' <= c && c <= 'Z') || c == '[' || c == ']' || c == '\\' || c
        == '`' || c == '^' || c == '{' || c == '}'
}

fn is_wildcard_c(c: char) -> (r: bool)
    ensures
        r == wildcard_char(c),
{
    c == '*' || c == '?'
}

/// Splits `s` at character position `k` into `(rest, matched)`.
fn split_from(s: &str, k: usize) -> (r: (&str, &str))
    requires
        k <= s@.len(),
    ensures
        r.0@ == s@.skip(k as int),
        r.1@ == s@.subrange(0, k as int),
{
    let n = s.unicode_len();
    let rest = s.substring_char(k, n);
    let matched = s.substring_char(0, k);
    proof {
        assert(rest@ =~= s@.skip(k as int));
    }
    (rest, matched)
}

// ---------------------------------------------------------------------------
// middle, trailing, wildcards
// ---------------------------------------------------------------------------

/// middle = nospcrlfcl *( ":" / nospcrlfcl )
pub open spec fn middle_len(s: Seq<char>) -> Option<nat> {
    if s.len() > 0 && nospcrlfcl_char(s[0]) {
        Some(run_len(CharClass::MiddleTail, s))
    } else {
        None
    }
}

pub(crate) fn middle_at(s: &str, from: usize) -> (r: Option<usize>)
    requires
        from <= s@.len(),
    ensures
        match r {
            Some(e) => from < e <= s@.len() && middle_len(s@.skip(from as int)) == Some(
                (e - from) as nat,
            ),
            None => middle_len(s@.skip(from as int)) is None,
        },
{
    proof {
        if from < s@.len() {
            assert(s@.skip(from as int)[0] == s@[from as int]);
        }
    }
    if from >= s.unicode_len() {
        return None;
    }
    if !is_nospcrlfcl_c(s.get_char(from)) {
        return None;
    }
    let e = scan(s, from, CharClass::MiddleTail);
    proof {
        grammar::lemma_run_len(CharClass::MiddleTail, s@.skip(from as int));
    }
    Some(e)
}

/// trailing = *( ":" / " " / nospcrlfcl ); it always matches, possibly empty.
pub open spec fn trailing_len(s: Seq<char>) -> nat {
    run_len(CharClass::Trailing, s)
}

pub(crate) fn trailing_at(s: &str, from: usize) -> (e: usize)
    requires
        from <= s@.len(),
    ensures
        from <= e <= s@.len(),
        trailing_len(s@.skip(from as int)) == (e - from) as nat,
{
    scan(s, from, CharClass::Trailing)
}

/// The wildcard alternative used by NAMES and LIST targets.
pub open spec fn wildcards_len(s: Seq<char>) -> Option<nat> {
    if s.len() > 0 && (s[0] == '#' || s[0] == '?') {
        Some(1)
    } else {
        None
    }
}

pub(crate) fn wildcards_at(s: &str, from: usize) -> (r: Option<usize>)
    requires
        from <= s@.len(),
    ensures
        match r {
            Some(e) => from < e <= s@.len() && wildcards_len(s@.skip(from as int)) == Some(
                (e - from) as nat,
            ),
            None => wildcards_len(s@.skip(from as int)) is None,
        },
{
    proof {
        if from < s@.len() {
            assert(s@.skip(from as int)[0] == s@[from as int]);
        }
    }
    if from < s.unicode_len() {
        let c = s.get_char(from);
        if c == '#' || c == '?' {
            return Some(from + 1);
        }
    }
    None
}

// ---------------------------------------------------------------------------
// nickname, user, key
// ---------------------------------------------------------------------------

/// nickname = ( letter / special ) *8( letter / digit / special / "-" ),
/// at most nine characters in all.
pub open spec fn nickname_len(s: Seq<char>) -> Option<nat> {
    if s.len() > 0 && nick_first_char(s[0]) {
        let k = 1 + run_len(CharClass::NickTail, s.skip(1));
        if k <= 9 {
            Some(k as nat)
        } else {
            None
        }
    } else {
        None
    }
}

/// A whole string is a well-formed nickname.
pub open spec fn is_nickname(s: Seq<char>) -> bool {
    nickname_len(s) == Some(s.len())
}

pub(crate) fn nickname_at(s: &str, from: usize) -> (r: Option<usize>)
    requires
        from <= s@.len(),
    ensures
        match r {
            Some(e) => from < e <= s@.len() && nickname_len(s@.skip(from as int)) == Some(
                (e - from) as nat,
            ),
            None => nickname_len(s@.skip(from as int)) is None,
        },
{
    proof {
        if from < s@.len() {
            assert(s@.skip(from as int)[0] == s@[from as int]);
        }
    }
    if from >= s.unicode_len() {
        return None;
    }
    if !is_nick_first_c(s.get_char(from)) {
        return None;
    }
    let e = scan(s, from + 1, CharClass::NickTail);
    proof {
        assert(s@.skip(from as int).skip(1) =~= s@.skip(from as int + 1));
    }
    if e - from <= 9 {
        Some(e)
    } else {
        None
    }
}

/// user = 1*( any ASCII octet except NUL, CR, LF, space and "@" )
pub open spec fn user_len(s: Seq<char>) -> Option<nat> {
    let k = run_len(CharClass::User, s);
    if k == 0 {
        None
    } else {
        Some(k)
    }
}

pub(crate) fn user_at(s: &str, from: usize) -> (r: Option<usize>)
    requires
        from <= s@.len(),
    ensures
        match r {
            Some(e) => from < e <= s@.len() && user_len(s@.skip(from as int)) == Some(
                (e - from) as nat,
            ),
            None => user_len(s@.skip(from as int)) is None,
        },
{
    let e = scan(s, from, CharClass::User);
    if e == from {
        None
    } else {
        Some(e)
    }
}

/// key = 1*23 key characters.
pub open spec fn key_len(s: Seq<char>) -> Option<nat> {
    let k = run_len(CharClass::Key, s);
    if k == 0 || k > 23 {
        None
    } else {
        Some(k)
    }
}

pub(crate) fn key_at(s: &str, from: usize) -> (r: Option<usize>)
    requires
        from <= s@.len(),
    ensures
        match r {
            Some(e) => from < e <= s@.len() && key_len(s@.skip(from as int)) == Some(
                (e - from) as nat,
            ),
            None => key_len(s@.skip(from as int)) is None,
        },
{
    let e = scan(s, from, CharClass::Key);
    if e == from || e - from > 23 {
        None
    } else {
        Some(e)
    }
}

// ---------------------------------------------------------------------------
// shortname, hostname
// ---------------------------------------------------------------------------

/// Discards the hyphens a greedy scan left at the end of a shortname.
pub open spec fn trim_hyphens(s: Seq<char>, r: nat) -> nat
    decreases r,
{
    if r == 0 {
        0
    } else if s[r - 1] == '-' {
        trim_hyphens(s, (r - 1) as nat)
    } else {
        r
    }
}

proof fn lemma_trim_hyphens(s: Seq<char>, r: nat)
    requires
        r >= 1,
        ascii_alnum(s[0]),
    ensures
        1 <= trim_hyphens(s, r) <= r,
    decreases r,
{
    if r > 1 && s[r - 1] == '-' {
        lemma_trim_hyphens(s, (r - 1) as nat);
    }
}

/// shortname = ( letter / digit ) *( letter / digit / "-" ), not ending in "-".
pub open spec fn shortname_len(s: Seq<char>) -> Option<nat> {
    if s.len() > 0 && ascii_alnum(s[0]) {
        Some(trim_hyphens(s, run_len(CharClass::AlnumHyphen, s)))
    } else {
        None
    }
}

pub(crate) fn shortname_at(s: &str, from: usize) -> (r: Option<usize>)
    requires
        from <= s@.len(),
    ensures
        match r {
            Some(e) => from < e <= s@.len() && shortname_len(s@.skip(from as int)) == Some(
                (e - from) as nat,
            ),
            None => shortname_len(s@.skip(from as int)) is None,
        },
{
    let ghost suf = s@.skip(from as int);
    proof {
        if from < s@.len() {
            assert(suf[0] == s@[from as int]);
        }
    }
    if from >= s.unicode_len() {
        return None;
    }
    if !is_alnum_c(s.get_char(from)) {
        return None;
    }
    let e0 = scan(s, from, CharClass::AlnumHyphen);
    proof {
        grammar::lemma_run_len(CharClass::AlnumHyphen, suf);
        assert(in_class(CharClass::AlnumHyphen, suf[0]));
        assert(e0 > from);
    }
    let mut e = e0;
    while e > from + 1 && s.get_char(e - 1) == '-'
        invariant
            from + 1 <= e <= e0 <= s@.len(),
            suf == s@.skip(from as int),
            ascii_alnum(suf[0]),
            trim_hyphens(suf, (e0 - from) as nat) == trim_hyphens(suf, (e - from) as nat),
            forall|j: int| 0 <= j < e - from ==> suf[j] == s@[from + j],
        decreases e,
    {
        e = e - 1;
    }
    proof {
        assert(suf[e - from - 1] == s@[e - 1]);
        if e > from + 1 {
            assert(trim_hyphens(suf, (e - from) as nat) == (e - from) as nat);
        } else {
            assert(suf[0] != '-');
            assert(trim_hyphens(suf, 1) == 1);
        }
    }
    Some(e)
}

/// Greedy length of *( "." shortname ) after the first shortname of a hostname.
pub open spec fn dotted_shortnames_len(s: Seq<char>) -> nat
    decreases s.len(),
{
    if s.len() >= 2 && s[0] == '.' {
        match shortname_len(s.skip(1)) {
            Some(k) => if 1 <= k && 1 + k <= s.len() {
                (1 + k + dotted_shortnames_len(s.skip(1 + k as int))) as nat
            } else {
                0
            },
            None => 0,
        }
    } else {
        0
    }
}

/// hostname = shortname *( "." shortname ), at most 63 characters.
pub open spec fn hostname_len(s: Seq<char>) -> Option<nat> {
    match shortname_len(s) {
        Some(k) => {
            let t = k + dotted_shortnames_len(s.skip(k as int));
            if t <= 63 {
                Some(t as nat)
            } else {
                None
            }
        },
        None => None,
    }
}

pub(crate) fn hostname_at(s: &str, from: usize) -> (r: Option<usize>)
    requires
        from <= s@.len(),
    ensures
        match r {
            Some(e) => from < e <= s@.len() && hostname_len(s@.skip(from as int)) == Some(
                (e - from) as nat,
            ),
            None => hostname_len(s@.skip(from as int)) is None,
        },
{
    let n = s.unicode_len();
    let first = match shortname_at(s, from) {
        Some(e) => e,
        None => {
            return None;
        },
    };
    proof {
        assert(s@.skip(from as int).skip((first - from) as int) =~= s@.skip(first as int));
    }
    let mut e = first;
    loop
        invariant
            from < first <= e <= n,
            n == s@.len(),
            shortname_len(s@.skip(from as int)) == Some((first - from) as nat),
            dotted_shortnames_len(s@.skip(first as int)) == (e - first) + dotted_shortnames_len(
                s@.skip(e as int),
            ),
        ensures
            from < first <= e <= n,
            dotted_shortnames_len(s@.skip(first as int)) == (e - first),
        decreases n - e,
    {
        proof {
            if e < n {
                assert(s@.skip(e as int)[0] == s@[e as int]);
            } else {
                assert(s@.skip(e as int) =~= Seq::<char>::empty());
            }
        }
        if !char_at_is(s, e, '.') {
            break ;
        }
        match shortname_at(s, e + 1) {
            Some(e2) => {
                proof {
                    assert(s@.skip(e as int).skip(1) =~= s@.skip(e as int + 1));
                    assert(s@.skip(e as int).skip((e2 - e) as int) =~= s@.skip(e2 as int));
                    assert(s@.skip(e as int).len() >= 2);
                }
                e = e2;
            },
            None => {
                proof {
                    assert(s@.skip(e as int).skip(1) =~= s@.skip(e as int + 1));
                }
                break ;
            },
        }
    }
    if e - from <= 63 {
        Some(e)
    } else {
        None
    }
}

/// servername = hostname
pub open spec fn servername_len(s: Seq<char>) -> Option<nat> {
    hostname_len(s)
}

// ---------------------------------------------------------------------------
// hostaddr
// ---------------------------------------------------------------------------

/// One to three digits of an IPv4 octet; a longer digit run is cut at three.
pub open spec fn ip4_octet_len(s: Seq<char>) -> Option<nat> {
    let d = run_len(CharClass::Digit, s);
    if d == 0 {
        None
    } else if d > 3 {
        Some(3)
    } else {
        Some(d)
    }
}

pub(crate) fn ip4_octet_at(s: &str, from: usize) -> (r: Option<usize>)
    requires
        from <= s@.len(),
    ensures
        match r {
            Some(e) => from < e <= s@.len() && ip4_octet_len(s@.skip(from as int)) == Some(
                (e - from) as nat,
            ),
            None => ip4_octet_len(s@.skip(from as int)) is None,
        },
{
    let e = scan(s, from, CharClass::Digit);
    if e == from {
        None
    } else if e - from > 3 {
        Some(from + 3)
    } else {
        Some(e)
    }
}

/// ip4addr = 1*3digit "." 1*3digit "." 1*3digit "." 1*3digit
pub open spec fn ip4addr_len(s: Seq<char>) -> Option<nat> {
    match ip4_octet_len(s) {
        None => None,
        Some(a) => if a < s.len() && s[a as int] == '.' {
            match ip4_octet_len(s.skip(a + 1 as int)) {
                None => None,
                Some(b) => {
                    let p = a + 1 + b;
                    if p < s.len() && s[p as int] == '.' {
                        match ip4_octet_len(s.skip(p + 1 as int)) {
                            None => None,
                            Some(c) => {
                                let q = p + 1 + c;
                                if q < s.len() && s[q as int] == '.' {
                                    match ip4_octet_len(s.skip(q + 1 as int)) {
                                        None => None,
                                        Some(d) => Some((q + 1 + d) as nat),
                                    }
                                } else {
                                    None
                                }
                            },
                        }
                    } else {
                        None
                    }
                },
            }
        } else {
            None
        },
    }
}

pub(crate) fn ip4addr_at(s: &str, from: usize) -> (r: Option<usize>)
    requires
        from <= s@.len(),
    ensures
        match r {
            Some(e) => from < e <= s@.len() && ip4addr_len(s@.skip(from as int)) == Some(
                (e - from) as nat,
            ),
            None => ip4addr_len(s@.skip(from as int)) is None,
        },
{
    let ghost suf = s@.skip(from as int);
    let n = s.unicode_len();
    let e1 = match ip4_octet_at(s, from) {
        Some(e) => e,
        None => {
            return None;
        },
    };
    proof {
        if e1 < s@.len() {
            assert(suf[(e1 - from) as int] == s@[e1 as int]);
        }
    }
    if !char_at_is(s, e1, '.') {
        return None;
    }
    proof {
        assert(suf.skip((e1 + 1 - from) as int) =~= s@.skip(e1 as int + 1));
    }
    let e2 = match ip4_octet_at(s, e1 + 1) {
        Some(e) => e,
        None => {
            return None;
        },
    };
    proof {
        if e2 < s@.len() {
            assert(suf[(e2 - from) as int] == s@[e2 as int]);
        }
    }
    if !char_at_is(s, e2, '.') {
        return None;
    }
    proof {
        assert(suf.skip((e2 + 1 - from) as int) =~= s@.skip(e2 as int + 1));
    }
    let e3 = match ip4_octet_at(s, e2 + 1) {
        Some(e) => e,
        None => {
            return None;
        },
    };
    proof {
        if e3 < s@.len() {
            assert(suf[(e3 - from) as int] == s@[e3 as int]);
        }
    }
    if !char_at_is(s, e3, '.') {
        return None;
    }
    proof {
        assert(suf.skip((e3 + 1 - from) as int) =~= s@.skip(e3 as int + 1));
    }
    let e4 = match ip4_octet_at(s, e3 + 1) {
        Some(e) => e,
        None => {
            return None;
        },
    };
    Some(e4)
}

/// Greedy length of `cnt` repetitions of ":" 1*hexdigit.
pub open spec fn colon_hex_len(s: Seq<char>, cnt: nat) -> Option<nat>
    decreases cnt,
{
    if cnt == 0 {
        Some(0)
    } else if s.len() >= 2 && s[0] == ':' && 1 <= run_len(CharClass::HexDigit, s.skip(1)) && 1
        + run_len(CharClass::HexDigit, s.skip(1)) <= s.len() {
        let k = run_len(CharClass::HexDigit, s.skip(1));
        match colon_hex_len(s.skip(1 + k as int), (cnt - 1) as nat) {
            Some(m) => Some((1 + k + m) as nat),
            None => None,
        }
    } else {
        None
    }
}

pub(crate) fn colon_hex_at(s: &str, from: usize, cnt: usize) -> (r: Option<usize>)
    requires
        from <= s@.len(),
    ensures
        match r {
            Some(e) => from <= e <= s@.len() && colon_hex_len(s@.skip(from as int), cnt as nat)
                == Some((e - from) as nat),
            None => colon_hex_len(s@.skip(from as int), cnt as nat) is None,
        },
    decreases cnt,
{
    if cnt == 0 {
        return Some(from);
    }
    let ghost suf = s@.skip(from as int);
    let n = s.unicode_len();
    proof {
        if from < s@.len() {
            assert(suf[0] == s@[from as int]);
        }
    }
    if !char_at_is(s, from, ':') {
        return None;
    }
    proof {
        assert(suf.skip(1) =~= s@.skip(from as int + 1));
    }
    let h = scan(s, from + 1, CharClass::HexDigit);
    if h == from + 1 {
        return None;
    }
    proof {
        assert(suf.len() >= 2);
        assert(suf.skip((h - from) as int) =~= s@.skip(h as int));
    }
    match colon_hex_at(s, h, cnt - 1) {
        Some(e) => Some(e),
        None => None,
    }
}

/// ip6addr = 1*hexdigit 7( ":" 1*hexdigit )
pub open spec fn ip6_normal_len(s: Seq<char>) -> Option<nat> {
    let k = run_len(CharClass::HexDigit, s);
    if k == 0 {
        None
    } else {
        match colon_hex_len(s.skip(k as int), 7) {
            Some(m) => Some((k + m) as nat),
            None => None,
        }
    }
}

pub(crate) fn ip6_normal_at(s: &str, from: usize) -> (r: Option<usize>)
    requires
        from <= s@.len(),
    ensures
        match r {
            Some(e) => from < e <= s@.len() && ip6_normal_len(s@.skip(from as int)) == Some(
                (e - from) as nat,
            ),
            None => ip6_normal_len(s@.skip(from as int)) is None,
        },
{
    let k = scan(s, from, CharClass::HexDigit);
    if k == from {
        return None;
    }
    proof {
        assert(s@.skip(from as int).skip((k - from) as int) =~= s@.skip(k as int));
    }
    match colon_hex_at(s, k, 7) {
        Some(e) => Some(e),
        None => None,
    }
}

/// ip6addr =/ "0:0:0:0:0:" ( "0" / "FFFF" ) ":" ip4addr
pub open spec fn ip6_compat_len(s: Seq<char>) -> Option<nat> {
    if match_at(s, 0, "0:0:0:0:0:"@) {
        let p: nat = if 10 < s.len() && s[10] == '0' {
            11
        } else if match_at(s, 10, "FFFF"@) {
            14
        } else {
            0
        };
        if p > 0 && p < s.len() && s[p as int] == ':' {
            match ip4addr_len(s.skip(p + 1 as int)) {
                Some(q) => Some((p + 1 + q) as nat),
                None => None,
            }
        } else {
            None
        }
    } else {
        None
    }
}

pub(crate) fn ip6_compat_at(s: &str, from: usize) -> (r: Option<usize>)
    requires
        from <= s@.len(),
    ensures
        match r {
            Some(e) => from < e <= s@.len() && ip6_compat_len(s@.skip(from as int)) == Some(
                (e - from) as nat,
            ),
            None => ip6_compat_len(s@.skip(from as int)) is None,
        },
{
    let ghost suf = s@.skip(from as int);
    let n = s.unicode_len();
    proof {
        reveal_strlit("0:0:0:0:0:");
        reveal_strlit("FFFF");
        assert("0:0:0:0:0:"@.len() == 10);
        assert("FFFF"@.len() == 4);
        assert forall|j: int| 0 <= j < suf.len() implies suf[j] == s@[from + j] by {}
        assert(match_at(suf, 0, "0:0:0:0:0:"@) == match_at(s@, from as int, "0:0:0:0:0:"@)) by {
            if match_at(suf, 0, "0:0:0:0:0:"@) {
                assert(suf.subrange(0, 10) =~= s@.subrange(from as int, from + 10));
            }
            if match_at(s@, from as int, "0:0:0:0:0:"@) {
                assert(s@.subrange(from as int, from + 10) =~= suf.subrange(0, 10));
            }
        }
    }
    if !tag_at(s, from, "0:0:0:0:0:") {
        return None;
    }
    proof {
        assert(match_at(suf, 10, "FFFF"@) == match_at(s@, from as int + 10, "FFFF"@)) by {
            if match_at(suf, 10, "FFFF"@) {
                assert(suf.subrange(10, 14) =~= s@.subrange(from + 10, from + 14));
            }
            if match_at(s@, from as int + 10, "FFFF"@) {
                assert(s@.subrange(from + 10, from + 14) =~= suf.subrange(10, 14));
            }
        }
    }
    let p: usize = if char_at_is(s, from + 10, '0') {
        from + 11
    } else if tag_at(s, from + 10, "FFFF") {
        from + 14
    } else {
        return None;
    };
    if !char_at_is(s, p, ':') {
        return None;
    }
    proof {
        assert(suf.skip((p + 1 - from) as int) =~= s@.skip(p as int + 1));
    }
    match ip4addr_at(s, p + 1) {
        Some(e) => Some(e),
        None => None,
    }
}

/// The IPv4-compatible form is tried first, then the plain eight-group form.
pub open spec fn ip6addr_len(s: Seq<char>) -> Option<nat> {
    if ip6_compat_len(s) is Some {
        ip6_compat_len(s)
    } else {
        ip6_normal_len(s)
    }
}

/// hostaddr = ip4addr / ip6addr
pub open spec fn hostaddr_len(s: Seq<char>) -> Option<nat> {
    if ip4addr_len(s) is Some {
        ip4addr_len(s)
    } else {
        ip6addr_len(s)
    }
}

pub(crate) fn hostaddr_at(s: &str, from: usize) -> (r: Option<usize>)
    requires
        from <= s@.len(),
    ensures
        match r {
            Some(e) => from < e <= s@.len() && hostaddr_len(s@.skip(from as int)) == Some(
                (e - from) as nat,
            ),
            None => hostaddr_len(s@.skip(from as int)) is None,
        },
{
    match ip4addr_at(s, from) {
        Some(e) => Some(e),
        None => match ip6_compat_at(s, from) {
            Some(e) => Some(e),
            None => ip6_normal_at(s, from),
        },
    }
}

/// host = hostname / hostaddr
#[verifier::opaque]
pub open spec fn host_len(s: Seq<char>) -> Option<nat> {
    if hostname_len(s) is Some {
        hostname_len(s)
    } else {
        hostaddr_len(s)
    }
}

pub(crate) fn host_at(s: &str, from: usize) -> (r: Option<usize>)
    requires
        from <= s@.len(),
    ensures
        match r {
            Some(e) => from < e <= s@.len() && host_len(s@.skip(from as int)) == Some(
                (e - from) as nat,
            ),
            None => host_len(s@.skip(from as int)) is None,
        },
{
    proof {
        reveal(host_len);
    }
    match hostname_at(s, from) {
        Some(e) => Some(e),
        None => hostaddr_at(s, from),
    }
}


// ---------------------------------------------------------------------------
// channel
// ---------------------------------------------------------------------------

fn is_channelid_c(c: char) -> (r: bool)
    ensures
        r == channelid_char(c),
{
    ('A' <= c && c <= 'Z') || ('0' <= c && c <= '9')
}

/// channel prefix = "#" / "+" / "&" / "!" channelid, channelid five A-Z / 0-9.
pub open spec fn channel_prefix_len(s: Seq<char>) -> Option<nat> {
    if s.len() > 0 && (s[0] == '#' || s[0] == '+' || s[0] == '&') {
        Some(1)
    } else if s.len() >= 6 && s[0] == '!' && (forall|j: int| 1 <= j < 6 ==> channelid_char(s[j])) {
        Some(6)
    } else {
        None
    }
}

pub(crate) fn channel_prefix_at(s: &str, from: usize) -> (r: Option<usize>)
    requires
        from <= s@.len(),
    ensures
        match r {
            Some(e) => from < e <= s@.len() && channel_prefix_len(s@.skip(from as int)) == Some(
                (e - from) as nat,
            ),
            None => channel_prefix_len(s@.skip(from as int)) is None,
        },
{
    let ghost suf = s@.skip(from as int);
    let n = s.unicode_len();
    proof {
        assert forall|j: int| 0 <= j < suf.len() implies suf[j] == s@[from + j] by {}
    }
    if from >= n {
        return None;
    }
    let c = s.get_char(from);
    if c == '#' || c == '+' || c == '&' {
        return Some(from + 1);
    }
    if c != '!' {
        return None;
    }
    if n - from < 6 {
        return None;
    }
    let mut j: usize = 1;
    while j < 6
        invariant
            1 <= j <= 6,
            from + 6 <= n,
            n == s@.len(),
            suf == s@.skip(from as int),
            suf[0] == '!',
            forall|x: int| 0 <= x < suf.len() ==> #[trigger] suf[x] == s@[from + x],
            forall|x: int| 1 <= x < j ==> channelid_char(#[trigger] s@[from + x]),
        decreases 6 - j,
    {
        if !is_channelid_c(s.get_char(from + j)) {
            proof {
                assert(suf[j as int] == s@[from + j]);
            }
            return None;
        }
        j = j + 1;
    }
    proof {
        assert forall|x: int| 1 <= x < 6 implies channelid_char(suf[x]) by {
            assert(suf[x] == s@[from + x]);
        }
    }
    Some(from + 6)
}

/// channel = ( "#" / "+" / ( "!" channelid ) / "&" ) chanstring [ ":" chanstring ]
#[verifier::opaque]
pub open spec fn channel_len(s: Seq<char>) -> Option<nat> {
    match channel_prefix_len(s) {
        Some(p) => {
            let c1 = run_len(CharClass::Chan, s.skip(p as int));
            if c1 == 0 {
                None
            } else {
                let q = p + c1;
                if q < s.len() && s[q as int] == ':' && run_len(
                    CharClass::Chan,
                    s.skip(q + 1 as int),
                ) > 0 {
                    Some((q + 1 + run_len(CharClass::Chan, s.skip(q + 1 as int))) as nat)
                } else {
                    Some(q as nat)
                }
            }
        },
        None => None,
    }
}

/// A whole string is a well-formed channel name.
pub open spec fn is_channel_name(s: Seq<char>) -> bool {
    channel_len(s) == Some(s.len())
}

pub(crate) fn channel_at(s: &str, from: usize) -> (r: Option<usize>)
    requires
        from <= s@.len(),
    ensures
        match r {
            Some(e) => from < e <= s@.len() && channel_len(s@.skip(from as int)) == Some(
                (e - from) as nat,
            ),
            None => channel_len(s@.skip(from as int)) is None,
        },
{
    proof {
        reveal(channel_len);
    }
    let ghost suf = s@.skip(from as int);
    let n = s.unicode_len();
    proof {
        assert forall|j: int| 0 <= j < suf.len() implies suf[j] == s@[from + j] by {}
    }
    let p = match channel_prefix_at(s, from) {
        Some(e) => e,
        None => {
            return None;
        },
    };
    proof {
        assert(suf.skip((p - from) as int) =~= s@.skip(p as int));
    }
    let q = scan(s, p, CharClass::Chan);
    if q == p {
        return None;
    }
    if char_at_is(s, q, ':') {
        proof {
            assert(suf.skip((q + 1 - from) as int) =~= s@.skip(q as int + 1));
        }
        let q2 = scan(s, q + 1, CharClass::Chan);
        if q2 > q + 1 {
            return Some(q2);
        }
    }
    Some(q)
}

// ---------------------------------------------------------------------------
// targetmask
// ---------------------------------------------------------------------------

/// Greedy length of *( "." segment ) behind the first segment of a mask,
/// together with the length of the last segment crossed.
pub open spec fn mask_ext_len(s: Seq<char>) -> (nat, nat)
    decreases s.len(),
{
    if s.len() >= 2 && s[0] == '.' && 1 <= run_len(CharClass::MaskSegment, s.skip(1)) && 1
        + run_len(CharClass::MaskSegment, s.skip(1)) <= s.len() {
        let k = run_len(CharClass::MaskSegment, s.skip(1));
        let r = mask_ext_len(s.skip(1 + k as int));
        if r.0 == 0 {
            ((1 + k) as nat, k)
        } else {
            ((1 + k + r.0) as nat, r.1)
        }
    } else {
        (0, 0)
    }
}

/// targetmask: segments separated by ".", with at least one "." and no
/// wildcard after the last one.
#[verifier::opaque]
pub open spec fn targetmask_len(s: Seq<char>) -> Option<nat> {
    let s0 = run_len(CharClass::MaskSegment, s);
    if s0 == 0 {
        None
    } else {
        let e = mask_ext_len(s.skip(s0 as int));
        if e.0 == 0 {
            None
        } else {
            let total = s0 + e.0;
            if exists|j: int| total - e.1 <= j < total && wildcard_char(s[j]) {
                None
            } else {
                Some(total as nat)
            }
        }
    }
}

pub(crate) fn targetmask_at(s: &str, from: usize) -> (r: Option<usize>)
    requires
        from <= s@.len(),
    ensures
        match r {
            Some(e) => from < e <= s@.len() && targetmask_len(s@.skip(from as int)) == Some(
                (e - from) as nat,
            ),
            None => targetmask_len(s@.skip(from as int)) is None,
        },
{
    proof {
        reveal(targetmask_len);
    }
    let ghost suf = s@.skip(from as int);
    let n = s.unicode_len();
    proof {
        assert forall|j: int| 0 <= j < suf.len() implies suf[j] == s@[from + j] by {}
    }
    let first = scan(s, from, CharClass::MaskSegment);
    if first == from {
        return None;
    }
    proof {
        assert(suf.skip((first - from) as int) =~= s@.skip(first as int));
    }
    let mut e = first;
    let mut ls = first;
    loop
        invariant
            from < first <= e <= n,
            first <= ls <= e,
            n == s@.len(),
            suf == s@.skip(from as int),
            run_len(CharClass::MaskSegment, suf) == first - from,
            mask_ext_len(s@.skip(first as int)).0 == (e - first) + mask_ext_len(
                s@.skip(e as int),
            ).0,
            mask_ext_len(s@.skip(first as int)).1 == if mask_ext_len(s@.skip(e as int)).0 == 0 {
                (e - ls) as nat
            } else {
                mask_ext_len(s@.skip(e as int)).1
            },
        ensures
            from < first <= ls <= e <= n,
            mask_ext_len(s@.skip(first as int)).0 == (e - first),
            mask_ext_len(s@.skip(first as int)).1 == (e - ls) as nat,
        decreases n - e,
    {
        proof {
            if e < n {
                assert(s@.skip(e as int)[0] == s@[e as int]);
            } else {
                assert(s@.skip(e as int) =~= Seq::<char>::empty());
            }
        }
        if !char_at_is(s, e, '.') {
            break ;
        }
        proof {
            assert(s@.skip(e as int).skip(1) =~= s@.skip(e as int + 1));
        }
        let k2 = scan(s, e + 1, CharClass::MaskSegment);
        if k2 == e + 1 {
            break ;
        }
        proof {
            assert(s@.skip(e as int).len() >= 2);
            assert(s@.skip(e as int).skip((k2 - e) as int) =~= s@.skip(k2 as int));
        }
        ls = e + 1;
        e = k2;
    }
    if e == first {
        return None;
    }
    // No wildcard may stand after the last dot.
    let mut j = ls;
    while j < e
        invariant
            from < first <= ls <= j <= e <= n,
            n == s@.len(),
            suf == s@.skip(from as int),
            run_len(CharClass::MaskSegment, suf) == first - from,
            mask_ext_len(s@.skip(first as int)).0 == e - first,
            mask_ext_len(s@.skip(first as int)).1 == (e - ls) as nat,
            s@.skip(first as int) == suf.skip((first - from) as int),
            forall|x: int| 0 <= x < suf.len() ==> #[trigger] suf[x] == s@[from + x],
            forall|x: int| ls <= x < j ==> !wildcard_char(#[trigger] s@[x]),
        decreases e - j,
    {
        if is_wildcard_c(s.get_char(j)) {
            proof {
                reveal(targetmask_len);
                assert(suf[(j - from) as int] == s@[j as int]);
                assert(wildcard_char(suf[(j - from) as int]));
            }
            return None;
        }
        j = j + 1;
    }
    proof {
        assert forall|x: int|
            (first - from) + (e - first) - (e - ls) <= x < (first - from) + (e - first)
            implies !wildcard_char(suf[x]) by {
            assert(suf[x] == s@[from + x]);
            assert(ls <= from + x < e);
        }
    }
    Some(e)
}

// ---------------------------------------------------------------------------
// msgto and msgtarget
// ---------------------------------------------------------------------------

/// msgto = user [ "%" host ] "@" servername
pub open spec fn msgto_uhs_len(s: Seq<char>) -> Option<nat> {
    match user_len(s) {
        None => None,
        Some(u) => {
            let h = host_len(s.skip(u as int + 1));
            let cursor: nat = if u < s.len() && s[u as int] == '%' && h is Some && u + 1
                + h.unwrap() <= s.len() {
                (u + 1 + h.unwrap()) as nat
            } else {
                u
            };
            if cursor < s.len() && s[cursor as int] == '@' {
                match servername_len(s.skip(cursor as int + 1)) {
                    Some(v) => Some((cursor + 1 + v) as nat),
                    None => None,
                }
            } else {
                None
            }
        },
    }
}

pub(crate) fn msgto_uhs_at(s: &str, from: usize) -> (r: Option<usize>)
    requires
        from <= s@.len(),
    ensures
        match r {
            Some(e) => from < e <= s@.len() && msgto_uhs_len(s@.skip(from as int)) == Some(
                (e - from) as nat,
            ),
            None => msgto_uhs_len(s@.skip(from as int)) is None,
        },
{
    let ghost suf = s@.skip(from as int);
    let n = s.unicode_len();
    proof {
        assert forall|j: int| 0 <= j < suf.len() implies suf[j] == s@[from + j] by {}
    }
    let u = match user_at(s, from) {
        Some(e) => e,
        None => {
            return None;
        },
    };
    proof {
        if u < n {
            assert(suf.skip((u + 1 - from) as int) =~= s@.skip(u as int + 1));
        }
    }
    let cursor: usize = if char_at_is(s, u, '%') {
        match host_at(s, u + 1) {
            Some(h) => h,
            None => u,
        }
    } else {
        u
    };
    proof {
        if cursor < n {
            assert(suf.skip((cursor + 1 - from) as int) =~= s@.skip(cursor as int + 1));
        }
    }
    if !char_at_is(s, cursor, '@') {
        return None;
    }
    match hostname_at(s, cursor + 1) {
        Some(e) => Some(e),
        None => None,
    }
}

/// msgto = user "%" host
pub open spec fn msgto_uh_len(s: Seq<char>) -> Option<nat> {
    match user_len(s) {
        None => None,
        Some(u) => if u < s.len() && s[u as int] == '%' {
            match host_len(s.skip(u as int + 1)) {
                Some(h) => Some((u + 1 + h) as nat),
                None => None,
            }
        } else {
            None
        },
    }
}

pub(crate) fn msgto_uh_at(s: &str, from: usize) -> (r: Option<usize>)
    requires
        from <= s@.len(),
    ensures
        match r {
            Some(e) => from < e <= s@.len() && msgto_uh_len(s@.skip(from as int)) == Some(
                (e - from) as nat,
            ),
            None => msgto_uh_len(s@.skip(from as int)) is None,
        },
{
    let ghost suf = s@.skip(from as int);
    let n = s.unicode_len();
    proof {
        assert forall|j: int| 0 <= j < suf.len() implies suf[j] == s@[from + j] by {}
    }
    let u = match user_at(s, from) {
        Some(e) => e,
        None => {
            return None;
        },
    };
    if !char_at_is(s, u, '%') {
        return None;
    }
    proof {
        assert(suf.skip((u + 1 - from) as int) =~= s@.skip(u as int + 1));
    }
    match host_at(s, u + 1) {
        Some(e) => Some(e),
        None => None,
    }
}

/// msgto = nickname "!" user "@" host
pub open spec fn msgto_nuh_len(s: Seq<char>) -> Option<nat> {
    match nickname_len(s) {
        None => None,
        Some(nk) => if nk < s.len() && s[nk as int] == '!' {
            match user_len(s.skip(nk as int + 1)) {
                None => None,
                Some(u) => {
                    let p = nk + 1 + u;
                    if p < s.len() && s[p as int] == '@' {
                        match host_len(s.skip(p as int + 1)) {
                            Some(h) => Some((p + 1 + h) as nat),
                            None => None,
                        }
                    } else {
                        None
                    }
                },
            }
        } else {
            None
        },
    }
}

pub(crate) fn msgto_nuh_at(s: &str, from: usize) -> (r: Option<usize>)
    requires
        from <= s@.len(),
    ensures
        match r {
            Some(e) => from < e <= s@.len() && msgto_nuh_len(s@.skip(from as int)) == Some(
                (e - from) as nat,
            ),
            None => msgto_nuh_len(s@.skip(from as int)) is None,
        },
{
    let ghost suf = s@.skip(from as int);
    let n = s.unicode_len();
    proof {
        assert forall|j: int| 0 <= j < suf.len() implies suf[j] == s@[from + j] by {}
    }
    let nk = match nickname_at(s, from) {
        Some(e) => e,
        None => {
            return None;
        },
    };
    if !char_at_is(s, nk, '!') {
        return None;
    }
    proof {
        assert(suf.skip((nk + 1 - from) as int) =~= s@.skip(nk as int + 1));
    }
    let u = match user_at(s, nk + 1) {
        Some(e) => e,
        None => {
            return None;
        },
    };
    if !char_at_is(s, u, '@') {
        return None;
    }
    proof {
        assert(suf.skip((u + 1 - from) as int) =~= s@.skip(u as int + 1));
    }
    match host_at(s, u + 1) {
        Some(e) => Some(e),
        None => None,
    }
}

/// msgto, the alternatives tried in order: channel, user@servername forms,
/// user%host, targetmask, nick!user@host, bare nickname.
#[verifier::opaque]
pub open spec fn msgto_len(s: Seq<char>) -> Option<nat> {
    if channel_len(s) is Some {
        channel_len(s)
    } else if msgto_uhs_len(s) is Some {
        msgto_uhs_len(s)
    } else if msgto_uh_len(s) is Some {
        msgto_uh_len(s)
    } else if targetmask_len(s) is Some {
        targetmask_len(s)
    } else if msgto_nuh_len(s) is Some {
        msgto_nuh_len(s)
    } else {
        nickname_len(s)
    }
}

pub(crate) fn msgto_at(s: &str, from: usize) -> (r: Option<usize>)
    requires
        from <= s@.len(),
    ensures
        match r {
            Some(e) => from < e <= s@.len() && msgto_len(s@.skip(from as int)) == Some(
                (e - from) as nat,
            ),
            None => msgto_len(s@.skip(from as int)) is None,
        },
{
    proof {
        reveal(msgto_len);
    }
    match channel_at(s, from) {
        Some(e) => Some(e),
        None => match msgto_uhs_at(s, from) {
            Some(e) => Some(e),
            None => match msgto_uh_at(s, from) {
                Some(e) => Some(e),
                None => match targetmask_at(s, from) {
                    Some(e) => Some(e),
                    None => match msgto_nuh_at(s, from) {
                        Some(e) => Some(e),
                        None => nickname_at(s, from),
                    },
                },
            },
        },
    }
}

/// Greedy length of *( "," msgto ) behind the first target.
pub open spec fn msgtarget_ext_len(s: Seq<char>) -> nat
    decreases s.len(),
{
    if s.len() >= 2 && s[0] == ',' {
        match msgto_len(s.skip(1)) {
            Some(k) => if 1 <= k && 1 + k <= s.len() {
                (1 + k + msgtarget_ext_len(s.skip(1 + k as int))) as nat
            } else {
                0
            },
            None => 0,
        }
    } else {
        0
    }
}

/// msgtarget = msgto *( "," msgto )
pub open spec fn msgtarget_len(s: Seq<char>) -> Option<nat> {
    match msgto_len(s) {
        Some(k) => Some((k + msgtarget_ext_len(s.skip(k as int))) as nat),
        None => None,
    }
}

#[verifier::rlimit(60)]
pub(crate) fn msgtarget_at(s: &str, from: usize) -> (r: Option<usize>)
    requires
        from <= s@.len(),
    ensures
        match r {
            Some(e) => from < e <= s@.len() && msgtarget_len(s@.skip(from as int)) == Some(
                (e - from) as nat,
            ),
            None => msgtarget_len(s@.skip(from as int)) is None,
        },
{
    let n = s.unicode_len();
    let first = match msgto_at(s, from) {
        Some(e) => e,
        None => {
            return None;
        },
    };
    proof {
        assert(s@.skip(from as int).skip((first - from) as int) =~= s@.skip(first as int));
    }
    let mut e = first;
    loop
        invariant
            from < first <= e <= n,
            n == s@.len(),
            msgto_len(s@.skip(from as int)) == Some((first - from) as nat),
            msgtarget_ext_len(s@.skip(first as int)) == (e - first) + msgtarget_ext_len(
                s@.skip(e as int),
            ),
        ensures
            from < first <= e <= n,
            msgtarget_ext_len(s@.skip(first as int)) == (e - first),
        decreases n - e,
    {
        proof {
            if e < n {
                assert(s@.skip(e as int)[0] == s@[e as int]);
            } else {
                assert(s@.skip(e as int) =~= Seq::<char>::empty());
            }
        }
        if !char_at_is(s, e, ',') {
            break ;
        }
        proof {
            assert(s@.skip(e as int).skip(1) =~= s@.skip(e as int + 1));
        }
        match msgto_at(s, e + 1) {
            Some(e2) => {
                proof {
                    assert(s@.skip(e as int).len() >= 2);
                    assert(s@.skip(e as int).skip((e2 - e) as int) =~= s@.skip(e2 as int));
                }
                e = e2;
            },
            None => {
                break ;
            },
        }
    }
    Some(e)
}

/// target = nickname / servername
pub open spec fn target_len(s: Seq<char>) -> Option<nat> {
    if nickname_len(s) is Some {
        nickname_len(s)
    } else {
        servername_len(s)
    }
}

pub(crate) fn target_at(s: &str, from: usize) -> (r: Option<usize>)
    requires
        from <= s@.len(),
    ensures
        match r {
            Some(e) => from < e <= s@.len() && target_len(s@.skip(from as int)) == Some(
                (e - from) as nat,
            ),
            None => target_len(s@.skip(from as int)) is None,
        },
{
    match nickname_at(s, from) {
        Some(e) => Some(e),
        None => hostname_at(s, from),
    }
}


/// Parses a `middle` parameter.
pub fn middle_parser<'a>(input: &'a str) -> (r: Option<(&'a str, &'a str)>)
    ensures
        match r {
            Some(p) => middle_len(input@) == Some(p.1@.len()) && p.1@ == input@.subrange(
                0,
                p.1@.len() as int,
            ) && p.0@ == input@.skip(p.1@.len() as int),
            None => middle_len(input@) is None,
        },
{
    proof {
        assert(input@.skip(0) =~= input@);
    }
    match middle_at(input, 0) {
        Some(e) => {
            let (rest, m) = split_from(input, e);
            Some((rest, m))
        },
        None => None,
    }
}

/// Parses the wildcard alternative of NAMES and LIST targets.
pub fn wildcards_parser<'a>(input: &'a str) -> (r: Option<(&'a str, &'a str)>)
    ensures
        match r {
            Some(p) => wildcards_len(input@) == Some(p.1@.len()) && p.1@ == input@.subrange(
                0,
                p.1@.len() as int,
            ) && p.0@ == input@.skip(p.1@.len() as int),
            None => wildcards_len(input@) is None,
        },
{
    proof {
        assert(input@.skip(0) =~= input@);
    }
    match wildcards_at(input, 0) {
        Some(e) => {
            let (rest, m) = split_from(input, e);
            Some((rest, m))
        },
        None => None,
    }
}

/// Parses a nickname: at most nine characters, a letter or special first.
pub fn nickname_parser<'a>(input: &'a str) -> (r: Option<(&'a str, &'a str)>)
    ensures
        match r {
            Some(p) => nickname_len(input@) == Some(p.1@.len()) && p.1@ == input@.subrange(
                0,
                p.1@.len() as int,
            ) && p.0@ == input@.skip(p.1@.len() as int),
            None => nickname_len(input@) is None,
        },
{
    proof {
        assert(input@.skip(0) =~= input@);
    }
    match nickname_at(input, 0) {
        Some(e) => {
            let (rest, m) = split_from(input, e);
            Some((rest, m))
        },
        None => None,
    }
}

/// Parses a `user` token.
pub fn user_parser<'a>(input: &'a str) -> (r: Option<(&'a str, &'a str)>)
    ensures
        match r {
            Some(p) => user_len(input@) == Some(p.1@.len()) && p.1@ == input@.subrange(
                0,
                p.1@.len() as int,
            ) && p.0@ == input@.skip(p.1@.len() as int),
            None => user_len(input@) is None,
        },
{
    proof {
        assert(input@.skip(0) =~= input@);
    }
    match user_at(input, 0) {
        Some(e) => {
            let (rest, m) = split_from(input, e);
            Some((rest, m))
        },
        None => None,
    }
}

/// Parses a channel key, at most 23 characters.
pub fn key_parser<'a>(input: &'a str) -> (r: Option<(&'a str, &'a str)>)
    ensures
        match r {
            Some(p) => key_len(input@) == Some(p.1@.len()) && p.1@ == input@.subrange(
                0,
                p.1@.len() as int,
            ) && p.0@ == input@.skip(p.1@.len() as int),
            None => key_len(input@) is None,
        },
{
    proof {
        assert(input@.skip(0) =~= input@);
    }
    match key_at(input, 0) {
        Some(e) => {
            let (rest, m) = split_from(input, e);
            Some((rest, m))
        },
        None => None,
    }
}

/// Parses a host shortname, which may not end in a hyphen.
pub fn shortname_parser<'a>(input: &'a str) -> (r: Option<(&'a str, &'a str)>)
    ensures
        match r {
            Some(p) => shortname_len(input@) == Some(p.1@.len()) && p.1@ == input@.subrange(
                0,
                p.1@.len() as int,
            ) && p.0@ == input@.skip(p.1@.len() as int),
            None => shortname_len(input@) is None,
        },
{
    proof {
        assert(input@.skip(0) =~= input@);
    }
    match shortname_at(input, 0) {
        Some(e) => {
            let (rest, m) = split_from(input, e);
            Some((rest, m))
        },
        None => None,
    }
}

/// Parses a hostname of dot-separated shortnames, at most 63 characters.
pub fn hostname_parser<'a>(input: &'a str) -> (r: Option<(&'a str, &'a str)>)
    ensures
        match r {
            Some(p) => hostname_len(input@) == Some(p.1@.len()) && p.1@ == input@.subrange(
                0,
                p.1@.len() as int,
            ) && p.0@ == input@.skip(p.1@.len() as int),
            None => hostname_len(input@) is None,
        },
{
    proof {
        assert(input@.skip(0) =~= input@);
    }
    match hostname_at(input, 0) {
        Some(e) => {
            let (rest, m) = split_from(input, e);
            Some((rest, m))
        },
        None => None,
    }
}

/// Parses a servername, which is a hostname.
pub fn servername_parser<'a>(input: &'a str) -> (r: Option<(&'a str, &'a str)>)
    ensures
        match r {
            Some(p) => servername_len(input@) == Some(p.1@.len()) && p.1@ == input@.subrange(
                0,
                p.1@.len() as int,
            ) && p.0@ == input@.skip(p.1@.len() as int),
            None => servername_len(input@) is None,
        },
{
    proof {
        assert(input@.skip(0) =~= input@);
    }
    match hostname_at(input, 0) {
        Some(e) => {
            let (rest, m) = split_from(input, e);
            Some((rest, m))
        },
        None => None,
    }
}

/// Parses a numeric host address, IPv4 or IPv6.
pub fn hostaddr_parser<'a>(input: &'a str) -> (r: Option<(&'a str, &'a str)>)
    ensures
        match r {
            Some(p) => hostaddr_len(input@) == Some(p.1@.len()) && p.1@ == input@.subrange(
                0,
                p.1@.len() as int,
            ) && p.0@ == input@.skip(p.1@.len() as int),
            None => hostaddr_len(input@) is None,
        },
{
    proof {
        assert(input@.skip(0) =~= input@);
    }
    match hostaddr_at(input, 0) {
        Some(e) => {
            let (rest, m) = split_from(input, e);
            Some((rest, m))
        },
        None => None,
    }
}

/// Parses a host: a hostname, or failing that a host address.
pub fn host_parser<'a>(input: &'a str) -> (r: Option<(&'a str, &'a str)>)
    ensures
        match r {
            Some(p) => host_len(input@) == Some(p.1@.len()) && p.1@ == input@.subrange(
                0,
                p.1@.len() as int,
            ) && p.0@ == input@.skip(p.1@.len() as int),
            None => host_len(input@) is None,
        },
{
    proof {
        assert(input@.skip(0) =~= input@);
    }
    match host_at(input, 0) {
        Some(e) => {
            let (rest, m) = split_from(input, e);
            Some((rest, m))
        },
        None => None,
    }
}

/// Parses a channel name with its `#`, `+`, `&` or `!id` prefix.
pub fn channel_parser<'a>(input: &'a str) -> (r: Option<(&'a str, &'a str)>)
    ensures
        match r {
            Some(p) => channel_len(input@) == Some(p.1@.len()) && p.1@ == input@.subrange(
                0,
                p.1@.len() as int,
            ) && p.0@ == input@.skip(p.1@.len() as int),
            None => channel_len(input@) is None,
        },
{
    proof {
        assert(input@.skip(0) =~= input@);
    }
    match channel_at(input, 0) {
        Some(e) => {
            let (rest, m) = split_from(input, e);
            Some((rest, m))
        },
        None => None,
    }
}

/// Parses a target mask: dotted segments, no wildcard after the last dot.
pub fn targetmask_parser<'a>(input: &'a str) -> (r: Option<(&'a str, &'a str)>)
    ensures
        match r {
            Some(p) => targetmask_len(input@) == Some(p.1@.len()) && p.1@ == input@.subrange(
                0,
                p.1@.len() as int,
            ) && p.0@ == input@.skip(p.1@.len() as int),
            None => targetmask_len(input@) is None,
        },
{
    proof {
        assert(input@.skip(0) =~= input@);
    }
    match targetmask_at(input, 0) {
        Some(e) => {
            let (rest, m) = split_from(input, e);
            Some((rest, m))
        },
        None => None,
    }
}

/// Parses one message target.
pub fn msgto_parser<'a>(input: &'a str) -> (r: Option<(&'a str, &'a str)>)
    ensures
        match r {
            Some(p) => msgto_len(input@) == Some(p.1@.len()) && p.1@ == input@.subrange(
                0,
                p.1@.len() as int,
            ) && p.0@ == input@.skip(p.1@.len() as int),
            None => msgto_len(input@) is None,
        },
{
    proof {
        assert(input@.skip(0) =~= input@);
    }
    match msgto_at(input, 0) {
        Some(e) => {
            let (rest, m) = split_from(input, e);
            Some((rest, m))
        },
        None => None,
    }
}

/// Parses a comma-separated list of message targets.
pub fn msgtarget_parser<'a>(input: &'a str) -> (r: Option<(&'a str, &'a str)>)
    ensures
        match r {
            Some(p) => msgtarget_len(input@) == Some(p.1@.len()) && p.1@ == input@.subrange(
                0,
                p.1@.len() as int,
            ) && p.0@ == input@.skip(p.1@.len() as int),
            None => msgtarget_len(input@) is None,
        },
{
    proof {
        assert(input@.skip(0) =~= input@);
    }
    match msgtarget_at(input, 0) {
        Some(e) => {
            let (rest, m) = split_from(input, e);
            Some((rest, m))
        },
        None => None,
    }
}

/// Parses a target: a nickname or a servername.
pub fn target_parser<'a>(input: &'a str) -> (r: Option<(&'a str, &'a str)>)
    ensures
        match r {
            Some(p) => target_len(input@) == Some(p.1@.len()) && p.1@ == input@.subrange(
                0,
                p.1@.len() as int,
            ) && p.0@ == input@.skip(p.1@.len() as int),
            None => target_len(input@) is None,
        },
{
    proof {
        assert(input@.skip(0) =~= input@);
    }
    match target_at(input, 0) {
        Some(e) => {
            let (rest, m) = split_from(input, e);
            Some((rest, m))
        },
        None => None,
    }
}

/// Parses a `trailing` parameter, which matches any input, possibly empty.
pub fn trailing_parser<'a>(input: &'a str) -> (r: Option<(&'a str, &'a str)>)
    ensures
        match r {
            Some(p) => trailing_len(input@) == p.1@.len() && p.1@ == input@.subrange(
                0,
                p.1@.len() as int,
            ) && p.0@ == input@.skip(p.1@.len() as int),
            None => false,
        },
{
    proof {
        assert(input@.skip(0) =~= input@);
    }
    let e = trailing_at(input, 0);
    let (rest, m) = split_from(input, e);
    Some((rest, m))
}


// ---------------------------------------------------------------------------
// Shared pieces of the command grammar
// ---------------------------------------------------------------------------

/// The remainder of `s` behind character position `e`.
pub(crate) fn rest_from(s: &str, e: usize) -> (r: &str)
    requires
        e <= s@.len(),
    ensures
        r@ == s@.skip(e as int),
{
    let n = s.unicode_len();
    let rest = s.substring_char(e, n);
    proof {
        assert(rest@ =~= s@.skip(e as int));
    }
    rest
}

/// Copies the character range `[from, to)` of `s` into an owned string.
pub(crate) fn owned_sub(s: &str, from: usize, to: usize) -> (r: String)
    requires
        from <= to <= s@.len(),
    ensures
        r@ == s@.subrange(from as int, to as int),
{
    let sub = s.substring_char(from, to);
    sub.to_owned()
}

/// The value of a string of decimal digits.
pub open spec fn digits_val(s: Seq<char>) -> nat
    decreases s.len(),
{
    if s.len() == 0 {
        0
    } else {
        (digits_val(s.drop_last()) * 10 + (s.last() as u32 - 48)) as nat
    }
}

proof fn lemma_digits_val_grows(s: Seq<char>, i: int)
    requires
        0 <= i <= s.len(),
        forall|j: int| 0 <= j < s.len() ==> ascii_digit(#[trigger] s[j]),
    ensures
        digits_val(s.take(i)) <= digits_val(s),
    decreases s.len() - i,
{
    if i < s.len() {
        assert(s.take(i + 1).drop_last() =~= s.take(i));
        assert(s.take(i + 1).last() == s[i]);
        assert(digits_val(s.take(i)) <= digits_val(s.take(i + 1)));
        lemma_digits_val_grows(s, i + 1);
    } else {
        assert(s.take(i) =~= s);
    }
}

/// The mode number of the USER command: a run of digits whose value fits in
/// eight bits; a larger value refuses the whole command.
pub open spec fn mode_number(s: Seq<char>) -> Option<(nat, nat)> {
    let d = run_len(CharClass::Digit, s);
    if d == 0 {
        None
    } else {
        let v = digits_val(s.take(d as int));
        if v > 255 {
            None
        } else {
            Some((d, v))
        }
    }
}

pub(crate) fn mode_number_at(s: &str, from: usize) -> (r: Option<(usize, u8)>)
    requires
        from <= s@.len(),
    ensures
        match r {
            Some(p) => from < p.0 <= s@.len() && mode_number(s@.skip(from as int)) == Some(
                (((p.0 - from) as nat, p.1 as nat)),
            ),
            None => mode_number(s@.skip(from as int)) is None,
        },
{
    let ghost suf = s@.skip(from as int);
    let n = s.unicode_len();
    proof {
        assert forall|j: int| 0 <= j < suf.len() implies suf[j] == s@[from + j] by {}
    }
    let e = scan(s, from, CharClass::Digit);
    if e == from {
        return None;
    }
    let mut acc: u32 = 0;
    let mut i = from;
    while i < e
        invariant
            from <= i <= e <= n,
            n == s@.len(),
            suf == s@.skip(from as int),
            run_len(CharClass::Digit, suf) == e - from,
            forall|j: int| 0 <= j < suf.len() ==> #[trigger] suf[j] == s@[from + j],
            acc <= 255,
            acc as nat == digits_val(suf.take(i - from)),
        decreases e - i,
    {
        let c = s.get_char(i);
        proof {
            grammar::lemma_run_len(CharClass::Digit, suf);
            assert(in_class(CharClass::Digit, suf[i - from]));
            assert(suf.take(i - from + 1).drop_last() =~= suf.take(i - from));
            assert(suf.take(i - from + 1).last() == suf[i - from]);
        }
        let digit: u32 = (c as u32) - 48;
        if acc > 25 || (acc == 25 && digit > 5) {
            proof {
                assert(digits_val(suf.take(i - from + 1)) > 255);
                let whole = suf.take((e - from) as int);
                assert forall|j: int| 0 <= j < whole.len() implies ascii_digit(
                    #[trigger] whole[j],
                ) by {
                    assert(in_class(CharClass::Digit, suf[j]));
                }
                lemma_digits_val_grows(whole, i - from + 1);
                assert(whole.take(i - from + 1) =~= suf.take(i - from + 1));
            }
            return None;
        }
        acc = acc * 10 + digit;
        i = i + 1;
    }
    proof {
        assert(suf.take((e - from) as int) =~= suf.take(i - from));
    }
    Some((e, acc as u8))
}

/// The kinds of token that stand in comma-separated command lists.
#[derive(Debug, Clone, Copy, PartialEq, Eq, Structural)]
pub enum TokenKind {
    /// A channel name.
    ChannelName,
    /// A channel key.
    ChannelKey,
    /// A `user` token.
    UserName,
}

pub open spec fn token_len(t: TokenKind, s: Seq<char>) -> Option<nat> {
    match t {
        TokenKind::ChannelName => channel_len(s),
        TokenKind::ChannelKey => key_len(s),
        TokenKind::UserName => user_len(s),
    }
}

fn token_at(s: &str, from: usize, t: TokenKind) -> (r: Option<usize>)
    requires
        from <= s@.len(),
    ensures
        match r {
            Some(e) => from < e <= s@.len() && token_len(t, s@.skip(from as int)) == Some(
                (e - from) as nat,
            ),
            None => token_len(t, s@.skip(from as int)) is None,
        },
{
    match t {
        TokenKind::ChannelName => channel_at(s, from),
        TokenKind::ChannelKey => key_at(s, from),
        TokenKind::UserName => user_at(s, from),
    }
}

/// Greedy length and items of *( "," token ) behind the first token.
pub open spec fn list_ext(t: TokenKind, s: Seq<char>) -> (nat, Seq<Seq<char>>)
    decreases s.len(),
{
    if s.len() >= 2 && s[0] == ',' {
        match token_len(t, s.skip(1)) {
            Some(k) => if 1 <= k && 1 + k <= s.len() {
                let rest = list_ext(t, s.skip(1 + k as int));
                ((1 + k + rest.0) as nat, seq![s.subrange(1, 1 + k as int)] + rest.1)
            } else {
                (0, Seq::empty())
            },
            None => (0, Seq::empty()),
        }
    } else {
        (0, Seq::empty())
    }
}

/// token *( "," token ): consumed length and the list of matched tokens.
pub open spec fn parse_list(t: TokenKind, s: Seq<char>) -> Option<(nat, Seq<Seq<char>>)> {
    match token_len(t, s) {
        Some(k) => {
            let ext = list_ext(t, s.skip(k as int));
            Some(((k + ext.0) as nat, seq![s.subrange(0, k as int)] + ext.1))
        },
        None => None,
    }
}

pub(crate) fn list_at(s: &str, from: usize, t: TokenKind) -> (r: Option<(usize, Vec<String>)>)
    requires
        from <= s@.len(),
    ensures
        match r {
            Some(p) => {
                &&& from < p.0 <= s@.len()
                &&& match parse_list(t, s@.skip(from as int)) {
                    Some(q) => q.0 == (p.0 - from) as nat && p.1@.len() == q.1.len() && forall|
                        i: int,
                    | 0 <= i < q.1.len() ==> #[trigger] p.1@[i]@ == q.1[i],
                    None => false,
                }
            },
            None => parse_list(t, s@.skip(from as int)) is None,
        },
{
    let n = s.unicode_len();
    let first = match token_at(s, from, t) {
        Some(e) => e,
        None => {
            return None;
        },
    };
    proof {
        assert(s@.skip(from as int).skip((first - from) as int) =~= s@.skip(first as int));
    }
    let mut items: Vec<String> = Vec::new();
    items.push(owned_sub(s, from, first));
    let ghost names: Seq<Seq<char>> = seq![s@.subrange(from as int, first as int)];
    let mut e = first;
    loop
        invariant
            from < first <= e <= n,
            n == s@.len(),
            token_len(t, s@.skip(from as int)) == Some((first - from) as nat),
            items@.len() == names.len(),
            names.len() >= 1,
            names[0] == s@.subrange(from as int, first as int),
            forall|i: int| 0 <= i < names.len() ==> #[trigger] items@[i]@ == names[i],
            list_ext(t, s@.skip(first as int)).0 == (e - first) + list_ext(
                t,
                s@.skip(e as int),
            ).0,
            list_ext(t, s@.skip(first as int)).1 =~= names.drop_first() + list_ext(
                t,
                s@.skip(e as int),
            ).1,
        ensures
            from < first <= e <= n,
            items@.len() == names.len(),
            list_ext(t, s@.skip(first as int)).0 == (e - first),
            list_ext(t, s@.skip(first as int)).1 =~= names.drop_first(),
            names[0] == s@.subrange(from as int, first as int),
            forall|i: int| 0 <= i < names.len() ==> #[trigger] items@[i]@ == names[i],
        decreases n - e,
    {
        proof {
            if e < n {
                assert(s@.skip(e as int)[0] == s@[e as int]);
            } else {
                assert(s@.skip(e as int) =~= Seq::<char>::empty());
            }
        }
        if !char_at_is(s, e, ',') {
            break ;
        }
        proof {
            assert(s@.skip(e as int).skip(1) =~= s@.skip(e as int + 1));
        }
        match token_at(s, e + 1, t) {
            Some(e2) => {
                proof {
                    assert(s@.skip(e as int).len() >= 2);
                    assert(s@.skip(e as int).skip((e2 - e) as int) =~= s@.skip(e2 as int));
                    assert(s@.skip(e as int).subrange(1, (e2 - e) as int) =~= s@.subrange(
                        e as int + 1,
                        e2 as int,
                    ));
                }
                items.push(owned_sub(s, e + 1, e2));
                proof {
                    assert((names.push(s@.subrange(e as int + 1, e2 as int))).drop_first() =~= (
                    names.drop_first() + seq![s@.subrange(e as int + 1, e2 as int)]));
                }
                let ghost names2 = names.push(s@.subrange(e as int + 1, e2 as int));
                proof {
                    assert(names2.drop_first() + list_ext(t, s@.skip(e2 as int)).1 =~= (
                    names.drop_first() + (seq![s@.subrange(e as int + 1, e2 as int)] + list_ext(
                        t,
                        s@.skip(e2 as int),
                    ).1)));
                }
                let ghost _ = 0int;
                proof {
                    names = names2;
                }
                e = e2;
            },
            None => {
                break ;
            },
        }
    }
    proof {
        assert(seq![names[0]] + names.drop_first() =~= names);
    }
    Some((e, items))
}

/// Greedy groups of ( "+" / "-" ) 1*flag for the MODE commands.
pub open spec fn mode_groups_ext(k: CharClass, s: Seq<char>) -> (nat, Seq<(char, Seq<char>)>)
    decreases s.len(),
{
    if s.len() >= 2 && (s[0] == '+' || s[0] == '-') && in_class(k, s[1]) {
        let r = run_len(k, s.skip(1));
        if 1 + r <= s.len() {
            let rest = mode_groups_ext(k, s.skip(1 + r as int));
            ((1 + r + rest.0) as nat, seq![(s[0], s.subrange(1, 1 + r as int))] + rest.1)
        } else {
            (0, Seq::empty())
        }
    } else {
        (0, Seq::empty())
    }
}

pub(crate) fn mode_groups_at(s: &str, from: usize, k: CharClass) -> (r: (
    usize,
    Vec<(char, Vec<char>)>,
))
    requires
        from <= s@.len(),
    ensures
        from <= r.0 <= s@.len(),
        mode_groups_ext(k, s@.skip(from as int)).0 == (r.0 - from) as nat,
        r.1@.len() == mode_groups_ext(k, s@.skip(from as int)).1.len(),
        forall|i: int|
            0 <= i < r.1@.len() ==> #[trigger] r.1@[i].0 == mode_groups_ext(
                k,
                s@.skip(from as int),
            ).1[i].0,
        forall|i: int|
            0 <= i < r.1@.len() ==> #[trigger] r.1@[i].1@ == mode_groups_ext(
                k,
                s@.skip(from as int),
            ).1[i].1,
{
    let n = s.unicode_len();
    let mut groups: Vec<(char, Vec<char>)> = Vec::new();
    let ghost done = Seq::<(char, Seq<char>)>::empty();
    let mut e = from;
    loop
        invariant
            from <= e <= n,
            n == s@.len(),
            groups@.len() == done.len(),
            forall|i: int| 0 <= i < done.len() ==> #[trigger] groups@[i].0 == done[i].0,
            forall|i: int| 0 <= i < done.len() ==> #[trigger] groups@[i].1@ == done[i].1,
            mode_groups_ext(k, s@.skip(from as int)).0 == (e - from) + mode_groups_ext(
                k,
                s@.skip(e as int),
            ).0,
            mode_groups_ext(k, s@.skip(from as int)).1 =~= done + mode_groups_ext(
                k,
                s@.skip(e as int),
            ).1,
        ensures
            from <= e <= n,
            groups@.len() == done.len(),
            forall|i: int| 0 <= i < done.len() ==> #[trigger] groups@[i].0 == done[i].0,
            forall|i: int| 0 <= i < done.len() ==> #[trigger] groups@[i].1@ == done[i].1,
            mode_groups_ext(k, s@.skip(from as int)).0 == (e - from) as nat,
            mode_groups_ext(k, s@.skip(from as int)).1 =~= done,
        decreases n - e,
    {
        proof {
            if e < n {
                assert(s@.skip(e as int)[0] == s@[e as int]);
            } else {
                assert(s@.skip(e as int) =~= Seq::<char>::empty());
            }
            if e + 1 < n {
                assert(s@.skip(e as int)[1] == s@[e as int + 1]);
            }
        }
        if e >= n {
            break ;
        }
        let sign = s.get_char(e);
        if sign != '+' && sign != '-' {
            break ;
        }
        proof {
            assert(s@.skip(e as int).skip(1) =~= s@.skip(e as int + 1));
        }
        let fe = scan(s, e + 1, k);
        if fe == e + 1 {
            break ;
        }
        let mut flags: Vec<char> = Vec::new();
        let mut j = e + 1;
        while j < fe
            invariant
                e + 1 <= j <= fe <= n,
                n == s@.len(),
                flags@.len() == j - (e + 1),
                forall|x: int| 0 <= x < flags@.len() ==> #[trigger] flags@[x] == s@[e + 1 + x],
            decreases fe - j,
        {
            flags.push(s.get_char(j));
            j = j + 1;
        }
        proof {
            assert(flags@ =~= s@.subrange(e as int + 1, fe as int));
            assert(s@.skip(e as int).subrange(1, (fe - e) as int) =~= s@.subrange(
                e as int + 1,
                fe as int,
            ));
            assert(s@.skip(e as int).skip((fe - e) as int) =~= s@.skip(fe as int));
            assert(s@.skip(e as int).len() >= 2);
        }
        groups.push((sign, flags));
        proof {
            done = done + seq![(sign, s@.subrange(e as int + 1, fe as int))];
        }
        e = fe;
    }
    (e, groups)
}


/// The owned strings of `v` read exactly the character sequences of `x`.
pub open spec fn strings_match(v: Seq<String>, x: Seq<Seq<char>>) -> bool {
    v.len() == x.len() && forall|i: int| 0 <= i < x.len() ==> (#[trigger] v[i])@ == x[i]
}

} // verus!
