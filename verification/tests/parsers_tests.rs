use irc_server::parsers::{nickname_parser, user_parser};
use irc_server::parsers::channel_parser;
use irc_server::parsers::{host_parser, hostname_parser, key_parser, targetmask_parser};

#[test]
fn test_valid_identifiers() {
    let cases = [
        "a",
        "a1",
        "abc123",
        "Z9",
        "x-y",
        "t[est]",
        "g{ood}",
        "h\\i", // backslash
        "j`k",  // backtick
        "m^n",
        "Qwert\\`^",
        "{wert\\`^",
    ];

    for &case in &cases {
        let (rest, out) = nickname_parser(case).expect(&format!("Should parse: {case}"));
        assert_eq!(rest, "");
        assert_eq!(out, case);
    }
}

#[test]
fn test_invalid_identifiers() {
    let cases = [
        "1abc", // cannot start with digit
        "",     // empty
    ];

    for &case in &cases {
        assert!(nickname_parser(case).is_none(), "Should fail: {case}");
    }
}

#[test]
fn test_partial_parse() {
    // valid prefix, then an invalid char later
    let (rest, out) = nickname_parser("abc!def").unwrap();
    assert_eq!(out, "abc");
    assert_eq!(rest, "!def");
}

#[test]
fn valid_users() {
    let cases = [
        "a",
        "abc123",
        "hello.world",
        "user-name",
        "test!#$%&'()*+,-./0123",
        "AZaz09",     // plain alnum
        "\x01abc",    // lowest allowed control
        "\x1Ftest",   // high control range
        "\x21hello",  // ASCII printable except space/@
        "foo\x7Fbar", // DEL is allowed
    ];

    for &case in &cases {
        let (rest, out) = user_parser(case).unwrap_or_else(|| panic!("should parse: {case:?}"));
        assert_eq!(rest, "");
        assert_eq!(out, case);
    }
}

#[test]
fn invalid_starting_character() {
    let cases = [
        "",      // empty is invalid (needs 1+)
        "\0abc", // NUL
        " abc",  // space
        "@name", // '@'
        "\nabc", // LF
        "\rabc", // CR
    ];

    for &case in &cases {
        assert!(user_parser(case).is_none(), "should fail at start: {case:?}");
    }
}

#[test]
fn stops_on_invalid_middle() {
    let (rest, out) = user_parser("foo bar").unwrap();
    assert_eq!(out, "foo");
    assert_eq!(rest, " bar");
}

#[test]
fn rejects_utf8_multibyte() {
    // snowman is a multi-byte UTF-8 character
    assert!(user_parser("☃test").is_none());

    // multi-byte anywhere stops parsing
    let (rest, out) =
        user_parser("abc☃def").unwrap_or_else(|| panic!("should partially parse ASCII prefix"));
    assert_eq!(out, "abc");
    assert_eq!(rest, "☃def");
}

#[test]
fn control_character_edge_cases() {
    // Check boundaries explicitly
    assert!(user_parser("\x01").is_some());
    assert!(user_parser("\x09").is_some());
    assert!(user_parser("\x0A").is_none()); // LF
    assert!(user_parser("\x0B").is_some());
    assert!(user_parser("\x0C").is_some());
    assert!(user_parser("\x0D").is_none()); // CR
    assert!(user_parser("\x0E").is_some());
    assert!(user_parser("\x1F").is_some());
    assert!(user_parser("\x20").is_none()); // space
    assert!(user_parser("\x40").is_none()); // '@'
}

#[test]
fn channel_names_with_prefixes() {
    let (rest, out) = channel_parser("#chat").unwrap();
    assert_eq!(rest, "");
    assert_eq!(out, "#chat");
    let (rest, out) = channel_parser("&local rest").unwrap();
    assert_eq!(rest, " rest");
    assert_eq!(out, "&local");
    let (rest, out) = channel_parser("!ABC12safe").unwrap();
    assert_eq!(rest, "");
    assert_eq!(out, "!ABC12safe");
    assert!(channel_parser("chat").is_none());
    assert!(channel_parser("!abcde").is_none()); // channel id must be upper case or digits
}

#[test]
fn hostnames_and_addresses() {
    let (rest, out) = hostname_parser("irc.example.com").unwrap();
    assert_eq!(rest, "");
    assert_eq!(out, "irc.example.com");
    // a shortname may not end in a hyphen
    let (rest, out) = hostname_parser("irc-").unwrap();
    assert_eq!(out, "irc");
    assert_eq!(rest, "-");
    let (rest, out) = host_parser("127.0.0.1").unwrap();
    assert_eq!(rest, "");
    assert_eq!(out, "127.0.0.1");
    // a key has at most 23 characters
    assert!(key_parser("abcdefghijklmnopqrstuvw").is_some());
    assert!(key_parser("abcdefghijklmnopqrstuvwx").is_none());
    // a mask needs a dot and no wildcard after the last one
    assert!(targetmask_parser("*.foo.com").is_some());
    assert!(targetmask_parser("abc").is_none());
    assert!(targetmask_parser("a.b*").is_none());
}
