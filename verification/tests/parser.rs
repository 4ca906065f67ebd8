use std::collections::HashMap;

use chat_ingest::event::Event;
use chat_ingest::msg::{Msg, Timestamp};
use chat_ingest::tags::{read_fields, Tag};
use chat_ingest::config::Config;
use chat_ingest::wire::{
    capability_request, credential_line, handshake, identity_line, is_probe, join_line,
    probe_response, service_domain, sort_line, Inbound,
};

const LINE: &str = "@badge-info=;badges=moderator/1;mod=1 :alice!alice@alice.tmi.example.tv PRIVMSG #bob :hello\r\n";

const DOMAIN: &str = "tmi.example.tv";

const AT: Timestamp = Timestamp { secs: 1_700_000_000, nanos: 123_456_789 };

fn assert_default_tags(tags: &Tag) {
    assert_eq!(tags.badge_info, "");
    assert_eq!(tags.badges, "");
    assert_eq!(tags.bits, "");
    assert_eq!(tags.client_nonce, "");
    assert_eq!(tags.color, "");
    assert_eq!(tags.display_name, "");
    assert_eq!(tags.emote_only, "");
    assert_eq!(tags.emotes, "");
    assert_eq!(tags.first_msg, 0);
    assert_eq!(tags.flags, "");
    assert_eq!(tags.id, "");
    assert_eq!(tags.is_mod, 0);
    assert_eq!(tags.reply_parent_display_name, "");
    assert_eq!(tags.reply_parent_msg_body, "");
    assert_eq!(tags.reply_parent_msg_id, "");
    assert_eq!(tags.reply_parent_user_id, "");
    assert_eq!(tags.reply_parent_user_login, "");
    assert_eq!(tags.returning_chatter, 0);
    assert_eq!(tags.room_id, "");
    assert_eq!(tags.subscriber, 0);
    assert_eq!(tags.tags_raw, "");
    assert_eq!(tags.tmi_sent_ts, "");
    assert_eq!(tags.turbo, 0);
    assert_eq!(tags.user_id, "");
    assert_eq!(tags.user_type, "");
    assert_eq!(tags.vip, "");
}

fn assert_empty_message(msg: &Msg) {
    assert_eq!(msg.username, "");
    assert_eq!(msg.command, "");
    assert_eq!(msg.channel, "");
    assert_eq!(msg.content, "");
}

#[test]
fn tagged_chat_line_becomes_event() {
    let event = Event::parse(LINE, DOMAIN, AT);
    assert_eq!(event.msg.username, "alice");
    assert_eq!(event.msg.command, "PRIVMSG");
    assert_eq!(event.msg.channel, "#bob");
    assert_eq!(event.msg.content, "hello");
    assert_eq!(event.tags.badges, "moderator/1");
    assert_eq!(event.tags.is_mod, 1);
    assert_eq!(event.tags.badge_info, "");
}

#[test]
fn tagged_chat_line_is_sorted_as_chat() {
    match sort_line(LINE, DOMAIN, AT) {
        Inbound::Chat { event } => {
            assert_eq!(event.msg.username, "alice");
            assert_eq!(event.msg.channel, "#bob");
            assert_eq!(event.msg.content, "hello");
            assert_eq!(event.tags.badges, "moderator/1");
            assert_eq!(event.tags.is_mod, 1);
        }
        other => panic!("expected a chat event, got {:?}", other),
    }
}

#[test]
fn new_tag_is_all_default() {
    assert_default_tags(&Tag::new());
}

#[test]
fn new_message_is_empty_and_keeps_its_timestamp() {
    let at = Timestamp { secs: 42, nanos: 7 };
    let msg = Msg::new(at);
    assert_empty_message(&msg);
    assert_eq!(msg.timestamp, at);
    assert_eq!(Msg::new(AT).timestamp, AT);
}

#[test]
fn parsed_message_keeps_its_timestamp() {
    assert_eq!(Msg::parse_message(LINE, DOMAIN, AT).timestamp, AT);
    assert_eq!(Msg::parse_message("", DOMAIN, AT).timestamp, AT);
    assert_eq!(Event::parse(LINE, DOMAIN, AT).msg.timestamp, AT);
    match sort_line(LINE, DOMAIN, AT) {
        Inbound::Chat { event } => assert_eq!(event.msg.timestamp, AT),
        other => panic!("expected a chat event, got {:?}", other),
    }
}

#[test]
fn line_without_tag_block_has_default_tags() {
    let line = ":alice!alice@alice.tmi.example.tv PRIVMSG #bob :hello\r\n";
    assert_eq!(Tag::capture_tags(line, DOMAIN), "");
    assert_default_tags(&Tag::parse_tags(line, DOMAIN));
    assert_default_tags(&Tag::parse_tags("", DOMAIN));
    assert_default_tags(&Tag::parse_tags("PING :tmi.example.tv\r\n", DOMAIN));
}

#[test]
fn line_of_another_service_matches_nothing() {
    assert_empty_message(&Msg::parse_message(LINE, "tmi.twitch.tv", AT));
    assert_default_tags(&Tag::parse_tags(LINE, "tmi.twitch.tv"));
}

#[test]
fn capture_tags_returns_the_block_verbatim() {
    assert_eq!(Tag::capture_tags(LINE, DOMAIN), "badge-info=;badges=moderator/1;mod=1");
}

#[test]
fn block_with_one_field_has_default_tags() {
    assert_default_tags(&Tag::from_block("mod=1"));
    assert_default_tags(&Tag::from_block(""));
    let line = "@mod=1 :alice!alice@alice.tmi.example.tv PRIVMSG #bob :hello";
    assert_eq!(Tag::capture_tags(line, DOMAIN), "mod=1");
    assert_default_tags(&Tag::parse_tags(line, DOMAIN));
}

#[test]
fn block_with_field_without_separator_has_default_tags() {
    assert_default_tags(&Tag::from_block("mod=1;vip"));
    assert_default_tags(&Tag::from_block("vip;mod=1"));
    assert_default_tags(&Tag::from_block(";"));
    assert_default_tags(&Tag::from_block("mod=1;"));
}

#[test]
fn every_known_key_reaches_its_field() {
    let block = "badge-info=subscriber/8;badges=subscriber/6;bits=100;client-nonce=abc;\
color=#0000FF;display-name=Alice;emote-only=1;emotes=25:0-4;first-msg=1;flags=0-3:P.5;\
id=b34ccfc7;mod=1;reply-parent-display-name=Bob;reply-parent-msg-body=hi\\sthere;\
reply-parent-msg-id=m1;reply-parent-user-id=77;reply-parent-user-login=bob;\
returning-chatter=1;room-id=1337;subscriber=1;tmi-sent-ts=1507246572675;turbo=1;\
user-id=1337;user-type=global_mod;vip=1";
    let tags = Tag::from_block(block);
    assert_eq!(tags.badge_info, "subscriber/8");
    assert_eq!(tags.badges, "subscriber/6");
    assert_eq!(tags.bits, "100");
    assert_eq!(tags.client_nonce, "abc");
    assert_eq!(tags.color, "#0000FF");
    assert_eq!(tags.display_name, "Alice");
    assert_eq!(tags.emote_only, "1");
    assert_eq!(tags.emotes, "25:0-4");
    assert_eq!(tags.first_msg, 1);
    assert_eq!(tags.flags, "0-3:P.5");
    assert_eq!(tags.id, "b34ccfc7");
    assert_eq!(tags.is_mod, 1);
    assert_eq!(tags.reply_parent_display_name, "Bob");
    assert_eq!(tags.reply_parent_msg_body, "hi there");
    assert_eq!(tags.reply_parent_msg_id, "m1");
    assert_eq!(tags.reply_parent_user_id, "77");
    assert_eq!(tags.reply_parent_user_login, "bob");
    assert_eq!(tags.returning_chatter, 1);
    assert_eq!(tags.room_id, "1337");
    assert_eq!(tags.subscriber, 1);
    assert_eq!(tags.tmi_sent_ts, "1507246572675");
    assert_eq!(tags.turbo, 1);
    assert_eq!(tags.user_id, "1337");
    assert_eq!(tags.user_type, "global_mod");
    assert_eq!(tags.vip, "1");
}

#[test]
fn raw_tags_are_one_json_object_ordered_by_key() {
    let tags = Tag::parse_tags(LINE, DOMAIN);
    assert_eq!(tags.tags_raw, "{\"badge-info\":\"\",\"badges\":\"moderator/1\",\"mod\":\"1\"}");
    let reordered = Tag::from_block("mod=1;badges=moderator/1;badge-info=");
    assert_eq!(reordered.tags_raw, tags.tags_raw);
}

#[test]
fn raw_tags_read_back_as_the_same_map() {
    let tags = Tag::from_block("display-name=A\\sB;unknown-key=x\"y\\z;mod=1;mod=0");
    let read: HashMap<String, String> = serde_json::from_str(&tags.tags_raw).unwrap();
    let mut expected: HashMap<String, String> = HashMap::new();
    expected.insert("display-name".to_string(), "A B".to_string());
    expected.insert("unknown-key".to_string(), "x\"y\\z".to_string());
    expected.insert("mod".to_string(), "0".to_string());
    assert_eq!(read, expected);
    assert_eq!(tags.display_name, "A B");
    assert_eq!(tags.is_mod, 0);
}

#[test]
fn unknown_keys_are_kept_in_raw_only() {
    let tags = Tag::from_block("foo=bar;vip=1");
    assert_eq!(tags.vip, "1");
    assert_eq!(tags.tags_raw, "{\"foo\":\"bar\",\"vip\":\"1\"}");
}

#[test]
fn later_field_replaces_earlier_one() {
    let tags = Tag::from_block("color=red;color=blue");
    assert_eq!(tags.color, "blue");
    assert_eq!(tags.tags_raw, "{\"color\":\"blue\"}");
}

#[test]
fn value_may_hold_separator_of_fields_key_value() {
    let tags = Tag::from_block("flags=a=b;id=1");
    assert_eq!(tags.flags, "a=b");
    assert_eq!(tags.id, "1");
}

#[test]
fn flag_that_is_no_number_is_zero() {
    let tags = Tag::from_block("mod=yes;turbo=;subscriber=2147483648;first-msg=-3;returning-chatter=+7");
    assert_eq!(tags.is_mod, 0);
    assert_eq!(tags.turbo, 0);
    assert_eq!(tags.subscriber, 0);
    assert_eq!(tags.first_msg, -3);
    assert_eq!(tags.returning_chatter, 7);
}

#[test]
fn read_fields_reports_missing_separator() {
    let good: Vec<Vec<char>> = vec!["a=1".chars().collect(), "b=\\s".chars().collect()];
    let map = read_fields(&good).unwrap();
    assert_eq!(map.get("a").unwrap(), "1");
    assert_eq!(map.get("b").unwrap(), " ");
    assert!(map.get("c").is_none());
    let bad: Vec<Vec<char>> = vec!["a=1".chars().collect(), "b".chars().collect()];
    assert!(read_fields(&bad).is_none());
}

#[test]
fn tag_patterns_follow_the_domain() {
    assert_eq!(Tag::pattern("tmi.twitch.tv"), "@(?P<tags>(.+)) :\\w*!\\w*@\\w*.tmi.twitch.tv .+");
    assert_eq!(
        Msg::pattern("tmi.twitch.tv"),
        ":(?P<username>\\w*)!\\w*@\\w*.tmi.twitch.tv (?P<command>PRIVMSG) (?P<channel>#\\w*) :(?P<content>.+)"
    );
}

#[test]
fn chat_line_gives_username_channel_and_content() {
    let line = ":carol!carol@carol.tmi.twitch.tv PRIVMSG #dave :good game everyone\r\n";
    let msg = Msg::parse_message(line, "tmi.twitch.tv", AT);
    assert_eq!(msg.username, "carol");
    assert_eq!(msg.command, "PRIVMSG");
    assert_eq!(msg.channel, "#dave");
    assert!(msg.channel.starts_with('#'));
    assert_eq!(msg.content, "good game everyone");
    assert!(!msg.content.ends_with('\r'));
}

#[test]
fn content_loses_only_its_trailing_carriage_returns() {
    let line = ":carol!carol@carol.tmi.twitch.tv PRIVMSG #dave :a\rb\r\r\n";
    let msg = Msg::parse_message(line, "tmi.twitch.tv", AT);
    assert_eq!(msg.content, "a\rb");
    let line = ":alice!alice@alice.tmi.twitch.tv PRIVMSG #bob :x\ry\r\n";
    let msg = Msg::parse_message(line, "tmi.twitch.tv", AT);
    assert_eq!(msg.content, "x\ry");
    let line = ":alice!alice@alice.tmi.twitch.tv PRIVMSG #bob :\rx";
    let msg = Msg::parse_message(line, "tmi.twitch.tv", AT);
    assert_eq!(msg.content, "\rx");
}

#[test]
fn content_of_only_carriage_return_is_empty() {
    let line = ":carol!carol@carol.tmi.twitch.tv PRIVMSG #dave :\r\n";
    let msg = Msg::parse_message(line, "tmi.twitch.tv", AT);
    assert_eq!(msg.username, "carol");
    assert_eq!(msg.content, "");
    assert!(matches!(sort_line(line, "tmi.twitch.tv", AT), Inbound::Other));
}

#[test]
fn line_that_is_no_chat_message_gives_empty_message() {
    let domain = "tmi.twitch.tv";
    assert_empty_message(&Msg::parse_message("", domain, AT));
    assert_empty_message(&Msg::parse_message("PING :tmi.twitch.tv\r\n", domain, AT));
    assert_empty_message(&Msg::parse_message(":carol!carol@carol.tmi.twitch.tv JOIN #dave\r\n", domain, AT));
    assert_empty_message(&Msg::parse_message(":carol!carol@carol.tmi.twitch.tv PRIVMSG dave :hi\r\n", domain, AT));
    assert_empty_message(&Msg::parse_message(":carol!carol@carol.tmi.twitch.tv PRIVMSG #dave :", domain, AT));
}

#[test]
fn from_captures_needs_all_four_groups() {
    let at = Timestamp { secs: 1, nanos: 2 };
    let full = Some(vec![
        Some("whole".to_string()),
        Some("u".to_string()),
        Some("PRIVMSG".to_string()),
        Some("#c".to_string()),
        Some("text\r".to_string()),
    ]);
    let inner = Some(vec![
        Some("whole".to_string()),
        Some("u".to_string()),
        Some("PRIVMSG".to_string()),
        Some("#c".to_string()),
        Some("x\ry\r".to_string()),
    ]);
    assert_eq!(Msg::from_captures(&inner, at).content, "x\ry");
    let msg = Msg::from_captures(&full, at);
    assert_eq!(msg.username, "u");
    assert_eq!(msg.command, "PRIVMSG");
    assert_eq!(msg.channel, "#c");
    assert_eq!(msg.content, "text");
    assert_eq!(msg.timestamp, at);
    let bare = Some(vec![
        Some("whole".to_string()),
        Some("u".to_string()),
        Some("PRIVMSG".to_string()),
        Some("c".to_string()),
        Some("text".to_string()),
    ]);
    assert_empty_message(&Msg::from_captures(&bare, at));
    let nameless = Some(vec![
        Some("whole".to_string()),
        Some("u".to_string()),
        Some("PRIVMSG".to_string()),
        Some(String::new()),
        Some("text".to_string()),
    ]);
    assert_empty_message(&Msg::from_captures(&nameless, at));
    let short = Some(vec![Some("whole".to_string()), Some("u".to_string())]);
    assert_empty_message(&Msg::from_captures(&short, at));
    let hole = Some(vec![
        Some("whole".to_string()),
        Some("u".to_string()),
        None,
        Some("#c".to_string()),
        Some("text".to_string()),
    ]);
    assert_empty_message(&Msg::from_captures(&hole, at));
    assert_empty_message(&Msg::from_captures(&None, at));
}

#[test]
fn invalid_domain_pattern_matches_nothing() {
    // An unclosed group makes the pattern invalid: parsing degrades to the defaults.
    assert_empty_message(&Msg::parse_message(LINE, "tmi(.tv", AT));
    assert_default_tags(&Tag::parse_tags(LINE, "tmi(.tv"));
}

#[test]
fn event_new_keeps_both_parts() {
    let msg = Msg::parse_message(LINE, DOMAIN, AT);
    let tags = Tag::parse_tags(LINE, DOMAIN);
    let event = Event::new(msg, tags);
    assert_eq!(event.msg.content, "hello");
    assert_eq!(event.tags.is_mod, 1);
    assert!(event.carries_content());
    let empty = Event::new(Msg::new(AT), Tag::new());
    assert!(!empty.carries_content());
}

#[test]
fn handshake_lines_are_exact() {
    assert_eq!(service_domain(), "tmi.twitch.tv");
    assert_eq!(
        capability_request(),
        "CAP REQ :twitch.tv/membership twitch.tv/tags twitch.tv/commands"
    );
    assert_eq!(credential_line("oauth:abc"), "PASS oauth:abc");
    assert_eq!(identity_line("logger"), "NICK logger");
    assert_eq!(join_line("#bob"), "JOIN #bob");
    assert_eq!(probe_response("tmi.twitch.tv"), "PONG :tmi.twitch.tv");
}

#[test]
fn probe_is_recognised_only_when_exact() {
    assert!(is_probe("PING :tmi.twitch.tv\r\n", "tmi.twitch.tv"));
    assert!(!is_probe("PING :tmi.twitch.tv", "tmi.twitch.tv"));
    assert!(!is_probe("PING :tmi.twitch.tv\n", "tmi.twitch.tv"));
    assert!(!is_probe(" PING :tmi.twitch.tv\r\n", "tmi.twitch.tv"));
    assert!(!is_probe("PING :tmi.example.tv\r\n", "tmi.twitch.tv"));
    assert!(!is_probe("", "tmi.twitch.tv"));
}

#[test]
fn probe_is_answered_and_is_no_event() {
    match sort_line("PING :tmi.example.tv\r\n", DOMAIN, AT) {
        Inbound::Probe { response } => assert_eq!(response, "PONG :tmi.example.tv"),
        other => panic!("expected the probe, got {:?}", other),
    }
    let parsed = Event::parse("PING :tmi.example.tv\r\n", DOMAIN, AT);
    assert!(!parsed.carries_content());
}

#[test]
fn line_without_content_is_other() {
    assert!(matches!(sort_line("", DOMAIN, AT), Inbound::Other));
    assert!(matches!(sort_line(":tmi.example.tv 001 logger :Welcome\r\n", DOMAIN, AT), Inbound::Other));
    assert!(matches!(
        sort_line(":alice!alice@alice.tmi.example.tv JOIN #bob\r\n", DOMAIN, AT),
        Inbound::Other
    ));
}

#[test]
fn handshake_sends_capabilities_credential_identity() {
    let config = Config {
        channels: vec!["#bob".to_string()],
        nickname: "logger".to_string(),
        oauth: "oauth:abc".to_string(),
        postgres_db: "db".to_string(),
        postgres_host: "localhost".to_string(),
        postgres_password: "secret".to_string(),
        postgres_user: "user".to_string(),
        server: "wss://example.tv:443".to_string(),
    };
    assert_eq!(
        handshake(&config),
        vec![
            "CAP REQ :twitch.tv/membership twitch.tv/tags twitch.tv/commands".to_string(),
            "PASS oauth:abc".to_string(),
            "NICK logger".to_string(),
        ]
    );
}
