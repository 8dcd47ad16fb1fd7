//! Lexical rules of the IRC wire protocol (RFC 2812 section 2.3.1).
//!
//! Every token parser works on the front of its input.  The specification
//! functions give the number of characters a token consumes, `None` when the
//! token does not match; the executable parsers return the remainder and the
//! matched prefix, exactly as the specification functions describe.

use vstd::prelude::*;

verus! {

// ---------------------------------------------------------------------------
// Character classes
// ---------------------------------------------------------------------------

/// The low byte of a character, as the octet-oriented wire grammar sees it.
pub open spec fn low_byte(c: char) -> u8 {
    ((c as u32) % 256) as u8
}

/// nospcrlfcl = %x01-09 / %x0B-0C / %x0E-1F / %x21-39 / %x3B-FF:
/// any octet except NUL, CR, LF, space and colon.
pub open spec fn spec_is_nospcrlfcl(b: u8) -> bool {
    (1 <= b && b <= 9) || (11 <= b && b <= 12) || (14 <= b && b <= 31) || (33 <= b && b <= 57) || (
    59 <= b)
}

pub fn is_nospcrlfcl(c: u8) -> (r: bool)
    ensures
        r == spec_is_nospcrlfcl(c),
{
    (1 <= c && c <= 9) || (11 <= c && c <= 12) || (14 <= c && c <= 31) || (33 <= c && c <= 57) || (
    59 <= c)
}

pub open spec fn nospcrlfcl_char(c: char) -> bool {
    spec_is_nospcrlfcl(low_byte(c))
}

pub open spec fn ascii_alpha(c: char) -> bool {
    ('a' <= c && c <= 'z') || ('A' <= c && c <= 'Z')
}

pub open spec fn ascii_digit(c: char) -> bool {
    '0' <= c && c <= '9'
}

pub open spec fn ascii_alnum(c: char) -> bool {
    ascii_alpha(c) || ascii_digit(c)
}

pub open spec fn ascii_hexdigit(c: char) -> bool {
    ascii_digit(c) || ('a' <= c && c <= 'f') || ('A' <= c && c <= 'F')
}

/// special = "[", "]", "\", "`", "^", "{", "}"
pub open spec fn nick_special(c: char) -> bool {
    c == '[' || c == ']' || c == '\\' || c == '`' || c == '^' || c == '{' || c == '}'
}

/// First character of a nickname: a letter or a special.
pub open spec fn nick_first_char(c: char) -> bool {
    ascii_alpha(c) || nick_special(c)
}

/// Tail character of a nickname: letter, digit, special or "-".
pub open spec fn nick_tail_char(c: char) -> bool {
    ascii_alnum(c) || nick_special(c) || c == '-'
}

/// chanstring: any octet up to 0xFF except NUL, BELL, CR, LF, space, comma, colon.
pub open spec fn chan_char(c: char) -> bool {
    !(c == '\u{0000}' || c == '\u{0007}' || c == '\r' || c == '\n' || c == ' ' || c == ',' || c
        == ':') && c as u32 <= 255
}

/// channelid characters: A-Z or 0-9.
pub open spec fn channelid_char(c: char) -> bool {
    ('A' <= c && c <= 'Z') || ascii_digit(c)
}

/// user = 1*( %x01-09 / %x0B-0C / %x0E-1F / %x21-3F / %x41-FF ):
/// any ASCII octet except NUL, CR, LF, space and "@".
pub open spec fn user_char(c: char) -> bool {
    {
        let b = c as u32;
        (1 <= b && b <= 9) || (11 <= b && b <= 12) || (14 <= b && b <= 31) || (33 <= b && b <= 63)
            || (65 <= b && b <= 127)
    }
}

/// key = 1*23( %x01-05 / %x07-08 / %x0C / %x0E-1F / %x21-7F ):
/// 7-bit characters except NUL, CR, LF, FF, tabs and space.
pub open spec fn key_char(c: char) -> bool {
    {
        let b = c as u32;
        (1 <= b && b <= 5) || (7 <= b && b <= 8) || b == 12 || (14 <= b && b <= 31) || (33 <= b
            && b <= 127)
    }
}

/// A mask segment character: ASCII, not NUL, CR, LF, space, comma, colon or dot.
pub open spec fn mask_segment_char(c: char) -> bool {
    c != '\u{0000}' && c != '\r' && c != '\n' && c != ' ' && c != ',' && c != ':' && c != '.'
        && c as u32 <= 127
}

/// Wildcards of target masks: "*" and "?".
pub open spec fn wildcard_char(c: char) -> bool {
    c == '*' || c == '?'
}

/// ASCII whitespace, the separator family the command grammar skips over.
pub open spec fn space_like_char(c: char) -> bool {
    c == ' ' || c == '\t' || c == '\n' || c == '\r' || c == '\u{000b}' || c == '\u{000c}'
}

/// A character that may stand in a parameter running to the end of the line.
pub open spec fn not_crlf_char(c: char) -> bool {
    c != '\r' && c != '\n'
}

/// The character classes the scanners run over.
#[derive(Debug, Clone, Copy, PartialEq, Eq, Structural)]
pub enum CharClass {
    /// ":" or nospcrlfcl, the tail of a `middle` parameter.
    MiddleTail,
    /// ":", " " or nospcrlfcl, the body of a `trailing` parameter.
    Trailing,
    /// Letters, digits and "-", the body of a host shortname.
    AlnumHyphen,
    /// ASCII digits.
    Digit,
    /// ASCII hexadecimal digits.
    HexDigit,
    /// Nickname tail characters.
    NickTail,
    /// chanstring characters.
    Chan,
    /// `user` characters.
    User,
    /// Channel `key` characters.
    Key,
    /// Target-mask segment characters.
    MaskSegment,
    /// Anything but CR and LF.
    NotCrlf,
    /// Anything but ASCII whitespace.
    NotSpaceLike,
    /// ASCII whitespace itself.
    SpaceLike,
    /// The separators the `space1` rule accepts: space and tab.
    SpaceTab,
    /// Anything but a space.
    NotSpace,
    /// The user mode flags NICK registration accepts: i, w, o, O, r.
    UserModeFlag,
    /// The channel mode flags: O o v a i m n q p s r t k l b e I.
    ChanModeFlag,
}

/// The user mode letters of the MODE command in its user form.
pub open spec fn user_mode_flag(c: char) -> bool {
    c == 'i' || c == 'w' || c == 'o' || c == 'O' || c == 'r'
}

/// The channel mode letters of the MODE command in its channel form.
pub open spec fn chan_mode_flag(c: char) -> bool {
    c == 'O' || c == 'o' || c == 'v' || c == 'a' || c == 'i' || c == 'm' || c == 'n' || c == 'q'
        || c == 'p' || c == 's' || c == 'r' || c == 't' || c == 'k' || c == 'l' || c == 'b' || c
        == 'e' || c == 'I'
}

pub open spec fn in_class(k: CharClass, c: char) -> bool {
    match k {
        CharClass::MiddleTail => c == ':' || nospcrlfcl_char(c),
        CharClass::Trailing => c == ':' || c == ' ' || nospcrlfcl_char(c),
        CharClass::AlnumHyphen => ascii_alnum(c) || c == '-',
        CharClass::Digit => ascii_digit(c),
        CharClass::HexDigit => ascii_hexdigit(c),
        CharClass::NickTail => nick_tail_char(c),
        CharClass::Chan => chan_char(c),
        CharClass::User => user_char(c),
        CharClass::Key => key_char(c),
        CharClass::MaskSegment => mask_segment_char(c),
        CharClass::NotCrlf => not_crlf_char(c),
        CharClass::NotSpaceLike => !space_like_char(c),
        CharClass::SpaceLike => space_like_char(c),
        CharClass::SpaceTab => c == ' ' || c == '\t',
        CharClass::NotSpace => c != ' ',
        CharClass::UserModeFlag => user_mode_flag(c),
        CharClass::ChanModeFlag => chan_mode_flag(c),
    }
}

pub(crate) fn char_in_class(k: CharClass, c: char) -> (r: bool)
    ensures
        r == in_class(k, c),
{
    let b = c as u32;
    match k {
        CharClass::MiddleTail => c == ':' || is_nospcrlfcl(((c as u32) % 256) as u8),
        CharClass::Trailing => c == ':' || c == ' ' || is_nospcrlfcl(((c as u32) % 256) as u8),
        CharClass::AlnumHyphen => ('a' <= c && c <= 'z') || ('A' <= c && c <= 'Z') || ('0' <= c
            && c <= '9') || c == '-',
        CharClass::Digit => '0' <= c && c <= '9',
        CharClass::HexDigit => ('0' <= c && c <= '9') || ('a' <= c && c <= 'f') || ('A' <= c && c
            <= 'F'),
        CharClass::NickTail => ('a' <= c && c <= 'z') || ('A' <= c && c <= 'Z') || ('0' <= c && c
            <= '9') || c == '[' || c == ']' || c == '\\' || c == '`' || c == '^' || c == '{' || c
            == '}' || c == '-',
        CharClass::Chan => !(c == '\u{0000}' || c == '\u{0007}' || c == '\r' || c == '\n' || c
            == ' ' || c == ',' || c == ':') && b <= 255,
        CharClass::User => (1 <= b && b <= 9) || (11 <= b && b <= 12) || (14 <= b && b <= 31) || (33
            <= b && b <= 63) || (65 <= b && b <= 127),
        CharClass::Key => (1 <= b && b <= 5) || (7 <= b && b <= 8) || b == 12 || (14 <= b && b
            <= 31) || (33 <= b && b <= 127),
        CharClass::MaskSegment => c != '\u{0000}' && c != '\r' && c != '\n' && c != ' ' && c != ','
            && c != ':' && c != '.' && b <= 127,
        CharClass::NotCrlf => c != '\r' && c != '\n',
        CharClass::NotSpaceLike => !(c == ' ' || c == '\t' || c == '\n' || c == '\r' || c
            == '\u{000b}' || c == '\u{000c}'),
        CharClass::SpaceLike => c == ' ' || c == '\t' || c == '\n' || c == '\r' || c == '\u{000b}'
            || c == '\u{000c}',
        CharClass::SpaceTab => c == ' ' || c == '\t',
        CharClass::NotSpace => c != ' ',
        CharClass::UserModeFlag => c == 'i' || c == 'w' || c == 'o' || c == 'O' || c == 'r',
        CharClass::ChanModeFlag => c == 'O' || c == 'o' || c == 'v' || c == 'a' || c == 'i' || c
            == 'm' || c == 'n' || c == 'q' || c == 'p' || c == 's' || c == 'r' || c == 't' || c
            == 'k' || c == 'l' || c == 'b' || c == 'e' || c == 'I',
    }
}

// ---------------------------------------------------------------------------
// Scanning
// ---------------------------------------------------------------------------

/// Length of the longest prefix of `s` lying in class `k`.
pub open spec fn run_len(k: CharClass, s: Seq<char>) -> nat
    decreases s.len(),
{
    if s.len() == 0 || !in_class(k, s[0]) {
        0
    } else {
        1 + run_len(k, s.drop_first())
    }
}

pub proof fn lemma_run_len(k: CharClass, s: Seq<char>)
    ensures
        run_len(k, s) <= s.len(),
        forall|i: int| 0 <= i < run_len(k, s) ==> in_class(k, s[i]),
        run_len(k, s) < s.len() ==> !in_class(k, s[run_len(k, s) as int]),
    decreases s.len(),
{
    if s.len() > 0 && in_class(k, s[0]) {
        lemma_run_len(k, s.drop_first());
        assert forall|i: int| 0 <= i < run_len(k, s) implies in_class(k, s[i]) by {
            if i > 0 {
                assert(s.drop_first()[i - 1] == s[i]);
            }
        }
        if run_len(k, s) < s.len() {
            assert(s.drop_first()[run_len(k, s) - 1] == s[run_len(k, s) as int]);
        }
    }
}

/// Scans forward from `from` while the characters lie in class `k`.
pub(crate) fn scan(s: &str, from: usize, k: CharClass) -> (r: usize)
    requires
        from <= s@.len(),
    ensures
        from <= r <= s@.len(),
        r - from == run_len(k, s@.skip(from as int)),
{
    let n = s.unicode_len();
    let mut i = from;
    loop
        invariant
            from <= i <= n,
            n == s@.len(),
            run_len(k, s@.skip(from as int)) == (i - from) + run_len(k, s@.skip(i as int)),
        decreases n - i,
    {
        if i == n {
            proof {
                assert(s@.skip(i as int) =~= Seq::<char>::empty());
            }
            return i;
        }
        let c = s.get_char(i);
        proof {
            assert(s@.skip(i as int)[0] == s@[i as int]);
        }
        if !char_in_class(k, c) {
            return i;
        }
        proof {
            assert(s@.skip(i as int).drop_first() =~= s@.skip(i as int + 1));
        }
        i = i + 1;
    }
}

// ---------------------------------------------------------------------------
// Literal matching
// ---------------------------------------------------------------------------

/// `t` stands verbatim in `s` at position `i`.
pub open spec fn match_at(s: Seq<char>, i: int, t: Seq<char>) -> bool {
    0 <= i && i + t.len() <= s.len() && s.subrange(i, i + t.len()) == t
}

pub(crate) fn tag_at(s: &str, from: usize, t: &str) -> (r: bool)
    requires
        from <= s@.len(),
    ensures
        r == match_at(s@, from as int, t@),
{
    let n = s.unicode_len();
    let tn = t.unicode_len();
    if n - from < tn {
        return false;
    }
    let mut j: usize = 0;
    while j < tn
        invariant
            0 <= j <= tn,
            from + tn <= n,
            n == s@.len(),
            tn == t@.len(),
            forall|x: int| 0 <= x < j ==> s@[from + x] == t@[x],
        decreases tn - j,
    {
        if s.get_char(from + j) != t.get_char(j) {
            proof {
                assert(s@.subrange(from as int, from + tn) != t@) by {
                    assert(s@.subrange(from as int, from + tn)[j as int] == s@[from + j]);
                }
            }
            return false;
        }
        j = j + 1;
    }
    proof {
        assert(s@.subrange(from as int, from + tn) =~= t@);
    }
    true
}

/// Two characters match up to ASCII letter case.
pub open spec fn eq_nocase(a: char, b: char) -> bool {
    a == b || (65 <= a as u32 <= 90 && b as u32 == a as u32 + 32) || (97 <= a as u32 <= 122
        && b as u32 + 32 == a as u32)
}

fn chars_eq_nocase(a: char, b: char) -> (r: bool)
    ensures
        r == eq_nocase(a, b),
{
    let x = a as u32;
    let y = b as u32;
    x == y || (65 <= x && x <= 90 && y == x + 32) || (97 <= x && x <= 122 && y + 32 == x)
}

/// `t` stands in `s` at position `i`, compared case-insensitively.
pub open spec fn match_nocase_at(s: Seq<char>, i: int, t: Seq<char>) -> bool {
    0 <= i && i + t.len() <= s.len() && forall|x: int|
        0 <= x < t.len() ==> eq_nocase(t[x], s[i + x])
}

pub(crate) fn tag_nocase_at(s: &str, from: usize, t: &str) -> (r: bool)
    requires
        from <= s@.len(),
    ensures
        r == match_nocase_at(s@, from as int, t@),
{
    let n = s.unicode_len();
    let tn = t.unicode_len();
    if n - from < tn {
        return false;
    }
    let mut j: usize = 0;
    while j < tn
        invariant
            0 <= j <= tn,
            from + tn <= n,
            n == s@.len(),
            tn == t@.len(),
            forall|x: int| 0 <= x < j ==> eq_nocase(t@[x], s@[from + x]),
        decreases tn - j,
    {
        if !chars_eq_nocase(t.get_char(j), s.get_char(from + j)) {
            return false;
        }
        j = j + 1;
    }
    true
}

} // verus!
