use irc_server::channel_ops::{
    valid_join_channel_parser, valid_part_channel_parser, IrcChannelOperation,
};
use irc_server::messaging::{valid_privmsg_message_parser, IrcMessageSending};
use irc_server::miscellanneous::{valid_ping_parser, IrcMiscellaneousMessages};
use irc_server::registration::{
    valid_mode_message_parser, valid_nick_message_parser, valid_oper_message_parser,
    valid_password_message_parser, valid_quit_message_parser, valid_user_message_rfc2812_parser,
    IrcConnectionRegistration,
};

#[test]
fn test_valid_password_message_parser() {
    let input = "PASS secretpasswordhere";
    let (rem, password) = valid_password_message_parser(input).unwrap();
    assert!(rem == "");
    assert_eq!(
        password,
        IrcConnectionRegistration::PASS("secretpasswordhere".to_owned())
    );
    let input = "PASS  ";
    assert!(valid_password_message_parser(input).is_none(), "no password");
    let input = "PASS";
    assert!(valid_password_message_parser(input).is_none(), "no password");
}

#[test]
fn test_valid_nick_message_parser() {
    let input = "NICK Wiz";
    let (rem, nickname) = valid_nick_message_parser(input).unwrap();
    assert!(rem == "");
    assert_eq!(nickname, IrcConnectionRegistration::NICK("Wiz".to_owned()));
    let input = "NICK  ";
    assert!(valid_nick_message_parser(input).is_none(), "no nickname");
    let input = "NICK";
    assert!(valid_nick_message_parser(input).is_none(), "no nickname");
}

#[test]
fn test_valid_user_message_parser() {
    let input = "USER guest 0 * :Ronnie Reagan";
    let (rem, nickname) = valid_user_message_rfc2812_parser(input).unwrap();
    assert!(rem == "");
    assert_eq!(
        nickname,
        IrcConnectionRegistration::USER_RFC_2812("guest".to_owned(), 0u8, "Ronnie Reagan".to_owned())
    );
    let input = "USER guest 8 * :Ronnie Reagan";
    let (rem, nickname) = valid_user_message_rfc2812_parser(input).unwrap();
    assert!(rem == "");
    assert_eq!(
        nickname,
        IrcConnectionRegistration::USER_RFC_2812("guest".to_owned(), 8u8, "Ronnie Reagan".to_owned())
    );
    let input = "USER guest * :Ronnie Reagan";
    assert!(
        valid_user_message_rfc2812_parser(input).is_none(),
        "missing mode"
    );
}

#[test]
fn test_valid_oper_message_parser() {
    let input = "OPER foo bar";
    let (rem, nickname) = valid_oper_message_parser(input).unwrap();
    assert!(rem == "");
    assert_eq!(
        nickname,
        IrcConnectionRegistration::OPER("foo".to_owned(), "bar".to_owned())
    );
    let input = "OPER foo ";
    assert!(valid_oper_message_parser(input).is_none(), "no password");
    let input = "OPER";
    assert!(
        valid_oper_message_parser(input).is_none(),
        "no user / no password"
    );
}

#[test]
fn test_valid_mode_message_parser() {
    let input = "MODE Wiz -w";
    let (rem, mode) = valid_mode_message_parser(input).unwrap();
    assert_eq!(
        mode,
        IrcConnectionRegistration::MODE("Wiz".to_owned(), vec![('-', vec!['w'])])
    );
    assert!(rem == "");
    let input = "MODE Wiz -ow";
    let (rem, mode) = valid_mode_message_parser(input).unwrap();
    assert_eq!(
        mode,
        IrcConnectionRegistration::MODE("Wiz".to_owned(), vec![('-', vec!['o', 'w'])])
    );
    assert!(rem == "");
    let input = "MODE WiZ +w";
    let (rem, mode) = valid_mode_message_parser(input).unwrap();
    assert_eq!(
        mode,
        IrcConnectionRegistration::MODE("WiZ".to_owned(), vec![('+', vec!['w'])])
    );
    assert!(rem == "");
    let input = "MODE Bob +i-o";
    let (rem, mode) = valid_mode_message_parser(input).unwrap();
    assert_eq!(
        mode,
        IrcConnectionRegistration::MODE("Bob".to_owned(), vec![('+', vec!['i']), ('-', vec!['o'])])
    );
    assert!(rem == "");
    let input = "MODE Bob  +i-o";
    assert!(valid_mode_message_parser(input).is_none(), "too many space");
    let input = "MODE Bob io";
    assert!(valid_mode_message_parser(input).is_none(), "no mode +/-");
    let input = "MODE Bob +-";
    assert!(valid_mode_message_parser(input).is_none(), "no flag o...");
    let input = "MODE Bob +q";
    assert!(valid_mode_message_parser(input).is_none(), "invalid flag q");
}

#[test]
fn quit_with_and_without_reason() {
    let (rem, cmd) = valid_quit_message_parser("QUIT :bye").unwrap();
    assert_eq!(rem, "");
    assert_eq!(cmd, IrcConnectionRegistration::QUIT(Some("bye".to_owned())));
    let (rem, cmd) = valid_quit_message_parser("QUIT").unwrap();
    assert_eq!(rem, "");
    assert_eq!(cmd, IrcConnectionRegistration::QUIT(None));
}

#[test]
fn join_with_keys_and_part() {
    let (rem, cmd) = valid_join_channel_parser("JOIN #a,#b sesame").unwrap();
    assert_eq!(rem, "");
    assert_eq!(
        cmd,
        IrcChannelOperation::JOIN(
            vec!["#a".to_owned(), "#b".to_owned()],
            Some(vec!["sesame".to_owned()])
        )
    );
    let (rem, cmd) = valid_part_channel_parser("PART #a :so long").unwrap();
    assert_eq!(rem, "");
    assert_eq!(
        cmd,
        IrcChannelOperation::PART(vec!["#a".to_owned()], Some("so long".to_owned()))
    );
}

#[test]
fn privmsg_and_ping_parsers() {
    let (rem, cmd) = valid_privmsg_message_parser("PRIVMSG #c :hi there").unwrap();
    assert_eq!(rem, "");
    match cmd {
        IrcMessageSending::PRIVMSG(target, text) => {
            assert_eq!(target, "#c");
            assert_eq!(text, "hi there");
        }
        _ => panic!("expected PRIVMSG"),
    }
    let (rem, cmd) = valid_ping_parser("PING tolsun.oulu.fi").unwrap();
    assert_eq!(rem, "");
    match cmd {
        IrcMiscellaneousMessages::PING(servers) => {
            assert_eq!(servers, vec!["tolsun.oulu.fi".to_owned()]);
        }
        _ => panic!("expected PING"),
    }
    assert!(valid_ping_parser("PING").is_none());
}
