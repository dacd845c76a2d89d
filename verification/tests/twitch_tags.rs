//! Tests for the Twitch message helpers: tag lookup, moderator detection,
//! badge parsing, and reply construction.

use std::str::FromStr;

use bevy_irc::proto::{Command, Message, Tag};
use bevy_irc::twitch::{Badge, MessageError, TwitchMessageExt};

fn tagged(tags: Vec<(&str, Option<&str>)>, command: Command) -> Message {
    Message {
        tags: Some(
            tags.into_iter()
                .map(|(k, v)| Tag(k.to_string(), v.map(|v| v.to_string())))
                .collect(),
        ),
        prefix: None,
        command: command,
    }
}

fn privmsg(channel: &str, text: &str) -> Command {
    Command::Privmsg(channel.to_string(), text.to_string())
}

#[test]
fn tag_values_found_by_key() {
    let m = tagged(
        vec![
            ("id", Some("m-1")),
            ("user-id", Some("u-2")),
            ("display-name", Some("Someone")),
        ],
        privmsg("#a", "hi"),
    );
    assert_eq!(m.message_id(), Some("m-1"));
    assert_eq!(m.user_id(), Some("u-2"));
    assert_eq!(m.display_name(), Some("Someone"));
}

#[test]
fn tag_values_absent() {
    let no_tags = Message { tags: None, prefix: None, command: privmsg("#a", "hi") };
    assert_eq!(no_tags.message_id(), None);
    let valueless = tagged(vec![("id", None)], privmsg("#a", "hi"));
    assert_eq!(valueless.message_id(), None);
    let other = tagged(vec![("color", Some("#FF0000"))], privmsg("#a", "hi"));
    assert_eq!(other.message_id(), None);
}

#[test]
fn first_tag_with_key_wins() {
    let m = tagged(
        vec![("id", Some("first")), ("id", Some("second"))],
        privmsg("#a", "hi"),
    );
    assert_eq!(m.message_id(), Some("first"));
}

#[test]
fn mod_tag_marks_moderator() {
    let m = tagged(vec![("mod", Some("1"))], privmsg("#a", "hi"));
    assert!(m.is_send_by_mod());
    let not = tagged(vec![("mod", Some("0"))], privmsg("#a", "hi"));
    assert!(!not.is_send_by_mod());
}

#[test]
fn user_type_tag_marks_moderator() {
    let m = tagged(vec![("user-type", Some("mod"))], privmsg("#a", "hi"));
    assert!(m.is_send_by_mod());
}

#[test]
fn badges_tag_marks_moderator_and_broadcaster() {
    let m = tagged(
        vec![("badges", Some("moderator/1,subscriber/12"))],
        privmsg("#a", "hi"),
    );
    assert!(m.is_send_by_mod());
    let b = tagged(vec![("badges", Some("broadcaster/1"))], privmsg("#a", "hi"));
    assert!(b.is_send_by_mod());
    let viewer = tagged(vec![("badges", Some("subscriber/12"))], privmsg("#a", "hi"));
    assert!(!viewer.is_send_by_mod());
    let untagged = Message { tags: None, prefix: None, command: privmsg("#a", "hi") };
    assert!(!untagged.is_send_by_mod());
}

#[test]
fn badge_parses_name_and_version() {
    let b = Badge::parse("moderator/1").unwrap();
    assert_eq!(b.badge, "moderator");
    assert_eq!(b.version, "1");
    // Only the first slash splits.
    let b = Badge::parse("a/b/c").unwrap();
    assert_eq!(b.badge, "a");
    assert_eq!(b.version, "b/c");
}

#[test]
fn badge_without_slash_is_malformed() {
    assert!(Badge::parse("moderator").is_none());
    assert!(Badge::from_str("moderator").is_err());
    let b = Badge::from_str("sub/0").unwrap();
    assert_eq!(b.badge, "sub");
    assert_eq!(b.version, "0");
}

#[test]
fn badges_parsed_from_tag() {
    let m = tagged(
        vec![("badges", Some("moderator/1,subscriber/12"))],
        privmsg("#a", "hi"),
    );
    let badges = m.badges().unwrap();
    assert_eq!(badges.len(), 2);
    assert_eq!(badges[0].badge, "moderator");
    assert_eq!(badges[0].version, "1");
    assert_eq!(badges[1].badge, "subscriber");
    assert_eq!(badges[1].version, "12");
}

#[test]
fn badges_none_when_malformed_or_absent() {
    let malformed = tagged(
        vec![("badges", Some("moderator/1,oops"))],
        privmsg("#a", "hi"),
    );
    assert!(malformed.badges().is_none());
    let absent = tagged(vec![("color", Some("x"))], privmsg("#a", "hi"));
    assert!(absent.badges().is_none());
}

#[test]
fn badges_trailing_comma_is_malformed() {
    // A trailing separator yields an empty entry, which has no slash.
    let m = tagged(vec![("badges", Some("moderator/1,"))], privmsg("#a", "hi"));
    assert!(m.badges().is_none());
}

#[test]
fn badge_splits_on_first_slash_only() {
    let b = Badge::parse("/1").unwrap();
    assert_eq!(b.badge, "");
    assert_eq!(b.version, "1");
    let b = Badge::parse("sub/").unwrap();
    assert_eq!(b.badge, "sub");
    assert_eq!(b.version, "");
}

#[test]
fn new_reply_carries_parent_id() {
    let m = tagged(vec![("id", Some("m-1"))], privmsg("#chan", "original"));
    let reply = m.new_reply("answer").unwrap();
    assert_eq!(reply.command, privmsg("#chan", "answer"));
    assert_eq!(reply.prefix, None);
    assert_eq!(
        reply.tags,
        Some(vec![Tag(
            "reply-parent-msg-id".to_string(),
            Some("m-1".to_string()),
        )]),
    );
}

#[test]
fn new_reply_requires_privmsg() {
    let m = tagged(vec![("id", Some("m-1"))], Command::Nick("bevy".to_string()));
    assert_eq!(m.new_reply("answer"), Err(MessageError::InvalidCommand));
}

#[test]
fn new_reply_requires_id() {
    let m = tagged(vec![("color", Some("x"))], privmsg("#chan", "original"));
    assert_eq!(m.new_reply("answer"), Err(MessageError::MissingId));
}

#[test]
fn set_reply_parent_appends_tag() {
    let parent = tagged(vec![("id", Some("m-9"))], privmsg("#chan", "original"));
    let mut reply = Message { tags: None, prefix: None, command: privmsg("#chan", "answer") };
    reply.set_reply_parent(&parent);
    assert_eq!(
        reply.tags,
        Some(vec![Tag(
            "reply-parent-msg-id".to_string(),
            Some("m-9".to_string()),
        )]),
    );
    // A parent without an id changes nothing.
    let anonymous = Message { tags: None, prefix: None, command: privmsg("#chan", "x") };
    let mut other = Message { tags: None, prefix: None, command: privmsg("#chan", "y") };
    other.set_reply_parent(&anonymous);
    assert_eq!(other.tags, None);
}

#[test]
fn set_reply_parent_id_keeps_existing_tags() {
    let mut m = tagged(vec![("color", Some("x"))], privmsg("#chan", "hi"));
    m.set_reply_parent_id("m-3");
    assert_eq!(
        m.tags,
        Some(vec![
            Tag("color".to_string(), Some("x".to_string())),
            Tag("reply-parent-msg-id".to_string(), Some("m-3".to_string())),
        ]),
    );
}

#[test]
fn trait_methods_forward_to_message() {
    let m = tagged(
        vec![("id", Some("m-1")), ("mod", Some("1"))],
        privmsg("#a", "hi"),
    );
    assert!(TwitchMessageExt::is_send_by_mod(&m));
    assert_eq!(TwitchMessageExt::message_id(&m), Some("m-1"));
    let reply: Result<Message, MessageError> = TwitchMessageExt::new_reply(&m, "pong");
    assert!(reply.is_ok());
}
