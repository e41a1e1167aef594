use irc::DecodeError;
use irc::IrcMessage;
use irc::MessageTag;

#[test]
fn test_irc_message_from_str() {
    let raw_str = ":irc.server NOTICE * :*** Looking up your hostname...";
    let generated: Result<IrcMessage, DecodeError> = Ok(IrcMessage {
        tags: None,
        prefix: Some(String::from("irc.server")),
        command: String::from("NOTICE"),
        params: Some(vec![
            String::from("*"),
            String::from("*** Looking up your hostname..."),
        ]),
        raw_message: String::from(raw_str),
    });
    let correct = IrcMessage::from_str(raw_str);

    assert_eq!(correct, generated);
}

#[test]
fn test_irc_message_from_str_prefix() {
    let raw_str = ":this.is.a.prefix NOTICE * :*** Looking up your hostname...";
    let correct = IrcMessage::from_str(raw_str).unwrap();

    assert_eq!(&correct.prefix.unwrap(), "this.is.a.prefix");
}

#[test]
fn test_irc_message_from_str_command() {
    let raw_str = ":this.is.a.prefix NOTICE * :*** Looking up your hostname...";
    let correct = IrcMessage::from_str(raw_str).unwrap();

    assert_eq!(&correct.command, "NOTICE");
}

#[test]
fn test_irc_message_from_str_params() {
    let raw_str = ":this.is.a.prefix NOTICE * :*** Looking up your hostname...";
    let correct = IrcMessage::from_str(raw_str).unwrap();

    let compare = vec!["*", "*** Looking up your hostname..."]
        .iter()
        .map(|param| String::from(*param))
        .collect();

    assert_eq!(correct.params, Some(compare));
}

#[test]
fn test_irc_message_from_str_params_2() {
    let raw_str = ":this.is.a.prefix NOTICE * :*** Looking up your hostname...";
    let correct = IrcMessage::from_str(raw_str).unwrap();

    let compare = vec!["*", ":*** Looking up your hostname..."]
        .iter()
        .map(|param| String::from(*param))
        .collect();

    assert_ne!(correct.params, Some(compare));
}

#[test]
fn test_irc_message_from_str_no_prefix() {
    let raw_str = "NOTICE * :*** Looking up your hostname...";
    let correct = IrcMessage::from_str(raw_str).unwrap();

    assert_eq!(correct.prefix, None);
}

#[test]
fn test_irc_message_from_str_tags() {
    let raw_str = "@aaa=bbb;ccc;example.com/ddd=eee :nick!ident@host.com PRIVMSG me :Hello";
    let correct = IrcMessage::from_str(raw_str).unwrap();
    let compare = vec![
        MessageTag {
            key: String::from("aaa"),
            value: Some(String::from("bbb")),
        },
        MessageTag {
            key: String::from("ccc"),
            value: None,
        },
        MessageTag {
            key: String::from("example.com/ddd"),
            value: Some(String::from("eee")),
        },
    ];

    assert_eq!(correct.tags, Some(compare));
}

#[test]
fn test_irc_message_tag_from_str() {
    let raw_str = "example.com/ddd=eee";
    let correct = MessageTag::from_str(raw_str).unwrap();
    let generated = MessageTag {
        key: String::from("example.com/ddd"),
        value: Some(String::from("eee")),
    };

    assert_eq!(correct, generated);
}

#[test]
fn test_round_trip_components() {
    let prefix = "irc.example";
    let command = "COMMAND";
    let p1 = "p1";
    let p2 = "p2";
    let trailing = "trailing with spaces";
    let line = format!(":{} {} {} {} :{}", prefix, command, p1, p2, trailing);
    let msg = IrcMessage::from_str(&line).unwrap();

    assert_eq!(msg.prefix, Some(String::from(prefix)));
    assert_eq!(msg.command, String::from(command));
    assert_eq!(
        msg.params,
        Some(vec![
            String::from(p1),
            String::from(p2),
            String::from(trailing),
        ])
    );
    assert_eq!(msg.raw_message, line);
}

#[test]
fn test_no_prefix_full() {
    let msg = IrcMessage::from_str("NOTICE * :*** Looking up your hostname...").unwrap();

    assert_eq!(msg.prefix, None);
    assert_eq!(msg.command, String::from("NOTICE"));
    assert_eq!(
        msg.params,
        Some(vec![
            String::from("*"),
            String::from("*** Looking up your hostname..."),
        ])
    );
}

#[test]
fn test_tags_full() {
    let msg =
        IrcMessage::from_str("@aaa=bbb;ccc;example.com/ddd=eee :nick!ident@host.com PRIVMSG me :Hello")
            .unwrap();

    assert_eq!(msg.prefix, Some(String::from("nick!ident@host.com")));
    assert_eq!(msg.command, String::from("PRIVMSG"));
    assert_eq!(
        msg.params,
        Some(vec![String::from("me"), String::from("Hello")])
    );
}

#[test]
fn test_trailing_keeps_embedded_colon() {
    let msg = IrcMessage::from_str(":server 332 me #chan :topic: all about :colons").unwrap();

    assert_eq!(
        msg.params,
        Some(vec![
            String::from("me"),
            String::from("#chan"),
            String::from("topic: all about :colons"),
        ])
    );
}

#[test]
fn test_tag_without_value() {
    let tag = MessageTag::from_str("ccc").unwrap();

    assert_eq!(tag.key, String::from("ccc"));
    assert_eq!(tag.value, None);
}

#[test]
fn test_tag_with_value() {
    let tag = MessageTag::from_str("example.com/ddd=eee").unwrap();

    assert_eq!(tag.key, String::from("example.com/ddd"));
    assert_eq!(tag.value, Some(String::from("eee")));
}

#[test]
fn test_tag_empty_value_is_present() {
    let tag = MessageTag::from_str("ccc=").unwrap();

    assert_eq!(tag.key, String::from("ccc"));
    assert_eq!(tag.value, Some(String::from("")));
}

#[test]
fn test_malformed_tags() {
    let err = IrcMessage::from_str("@aaa=bbb;ccc").unwrap_err();

    assert_eq!(err, DecodeError::MalformedTags);
    assert_eq!(
        err.description(),
        String::from("Error parsing message tags (invalid format)")
    );
}

#[test]
fn test_malformed_prefix() {
    let err = IrcMessage::from_str(":prefix.only").unwrap_err();

    assert_eq!(err, DecodeError::MalformedPrefix);
    assert_eq!(
        err.description(),
        String::from("Error parsing message prefix (invalid format)")
    );
}

#[test]
fn test_malformed_command() {
    let err = IrcMessage::from_str("PING").unwrap_err();

    assert_eq!(err, DecodeError::MalformedCommand);
    assert_eq!(
        err.description(),
        String::from("Error parsing message command (invalid format)")
    );
}

#[test]
fn test_empty_command_rejected() {
    let after_prefix = IrcMessage::from_str(":a  b").unwrap_err();
    let after_tags = IrcMessage::from_str("@k=v  b").unwrap_err();

    assert_eq!(after_prefix, DecodeError::MalformedCommand);
    assert_eq!(after_tags, DecodeError::MalformedCommand);
}

#[test]
fn test_unicode_whitespace() {
    let msg = IrcMessage::from_str("\u{a0} :pre CMD a\u{2003}b :t \u{3000}").unwrap();

    assert_eq!(msg.raw_message, String::from(":pre CMD a\u{2003}b :t"));
    assert_eq!(msg.prefix, Some(String::from("pre")));
    assert_eq!(msg.command, String::from("CMD"));
    assert_eq!(
        msg.params,
        Some(vec![
            String::from("a"),
            String::from("b"),
            String::from("t"),
        ])
    );
}

#[test]
fn test_input_is_trimmed() {
    let msg = IrcMessage::from_str("  :irc.server NOTICE * :hi\t").unwrap();

    assert_eq!(msg.raw_message, String::from(":irc.server NOTICE * :hi"));
    assert_eq!(msg.prefix, Some(String::from("irc.server")));
    assert_eq!(
        msg.params,
        Some(vec![String::from("*"), String::from("hi")])
    );
}

#[test]
fn test_whitespace_runs_collapse() {
    let msg = IrcMessage::from_str(":pre CMD   a \t b  :tail here").unwrap();

    assert_eq!(msg.command, String::from("CMD"));
    assert_eq!(
        msg.params,
        Some(vec![
            String::from("a"),
            String::from("b"),
            String::from("tail here"),
        ])
    );
}

#[test]
fn test_params_without_trailing() {
    let msg = IrcMessage::from_str(":pre MODE #chan +o nick").unwrap();

    assert_eq!(msg.command, String::from("MODE"));
    assert_eq!(
        msg.params,
        Some(vec![
            String::from("#chan"),
            String::from("+o"),
            String::from("nick"),
        ])
    );
}

#[test]
fn test_equality_ignores_tags_and_raw() {
    let a = IrcMessage::from_str("@aaa=bbb :pre CMD x :y").unwrap();
    let b = IrcMessage::from_str(":pre CMD x :y").unwrap();

    assert_eq!(a, b);
}

#[test]
fn test_equality_distinguishes_params() {
    let a = IrcMessage::from_str(":pre CMD x :y").unwrap();
    let b = IrcMessage::from_str(":pre CMD x :z").unwrap();

    assert_ne!(a, b);
}

#[test]
fn test_tag_equality() {
    let a = MessageTag::from_str("k=v").unwrap();
    let b = MessageTag::from_str("k=v").unwrap();
    let c = MessageTag::from_str("k").unwrap();

    assert_eq!(a, b);
    assert_ne!(a, c);
}
