//! The lines that go over the connection: what a shard sends to
//! authenticate and join, and how it sorts what it reads.

use vstd::prelude::*;
use crate::config::Config;
use crate::event::Event;
use crate::msg::{message_of, message_pattern, Timestamp};
use crate::pattern::regex_captures;
use crate::tags::{captured_tags, tag_pattern, tags_of_block};

verus! {

/// The domain of the chat service that the lines of this protocol name.
pub fn service_domain() -> (domain: String)
    ensures
        domain@ == "tmi.twitch.tv"@,
{
    "tmi.twitch.tv".to_owned()
}

/// The line that asks the server for membership, tags and commands.
pub fn capability_request() -> (line: String)
    ensures
        line@ == "CAP REQ :twitch.tv/membership twitch.tv/tags twitch.tv/commands"@,
{
    "CAP REQ :twitch.tv/membership twitch.tv/tags twitch.tv/commands".to_owned()
}

/// The line that presents the credential.
pub fn credential_line(oauth: &str) -> (line: String)
    ensures
        line@ == "PASS "@ + oauth@,
{
    "PASS ".to_owned().concat(oauth)
}

/// The line that presents the identity.
pub fn identity_line(nickname: &str) -> (line: String)
    ensures
        line@ == "NICK "@ + nickname@,
{
    "NICK ".to_owned().concat(nickname)
}

/// The lines that open a session, in the order in which they are sent:
/// the capability request, the credential and the identity of `config`.
pub fn handshake(config: &Config) -> (lines: Vec<String>)
    ensures
        lines.len() == 3,
        lines[0]@ == "CAP REQ :twitch.tv/membership twitch.tv/tags twitch.tv/commands"@,
        lines[1]@ == "PASS "@ + config.oauth@,
        lines[2]@ == "NICK "@ + config.nickname@,
{
    let mut lines: Vec<String> = Vec::new();
    lines.push(capability_request());
    lines.push(credential_line(config.oauth.as_str()));
    lines.push(identity_line(config.nickname.as_str()));
    lines
}

/// The line that asks to join `channel`, a name in canonical form.
pub fn join_line(channel: &str) -> (line: String)
    ensures
        line@ == "JOIN "@ + channel@,
{
    "JOIN ".to_owned().concat(channel)
}

/// The liveness probe that the service at `domain` sends.
pub open spec fn probe_text(domain: Seq<char>) -> Seq<char> {
    "PING :"@ + domain + "\r\n"@
}

/// The answer that the service at `domain` expects to its probe.
pub open spec fn probe_response_text(domain: Seq<char>) -> Seq<char> {
    "PONG :"@ + domain
}

/// Whether `line` is the liveness probe, whole and exact.
pub fn is_probe(line: &str, domain: &str) -> (b: bool)
    ensures
        b == (line@ == probe_text(domain@)),
{
    let probe: String = "PING :".to_owned().concat(domain).concat("\r\n");
    let seen: String = line.to_owned();
    seen == probe
}

/// The answer to the liveness probe.
pub fn probe_response(domain: &str) -> (line: String)
    ensures
        line@ == probe_response_text(domain@),
{
    "PONG :".to_owned().concat(domain)
}

/// What a shard does with a line that it has read.
#[derive(Debug, Clone)]
pub enum Inbound {
    /// The line is the liveness probe: send `response`.
    Probe { response: String },
    /// The line is a chat message with content: offer the event for storage.
    Chat { event: Event },
    /// The line is neither: nothing is to be done.
    Other,
}

/// Sorts `line`, a line from the service at `domain` that was read at
/// `timestamp`. The liveness probe is answered and never becomes an event.
/// Any other line is parsed, and is an event exactly when its message has
/// content.
pub fn sort_line(line: &str, domain: &str, timestamp: Timestamp) -> (r: Inbound)
    ensures
        line@ == probe_text(domain@) <==> r is Probe,
        r matches Inbound::Probe { response } ==> response@ == probe_response_text(domain@),
        r is Chat <==> line@ != probe_text(domain@) && message_of(
            regex_captures(message_pattern(domain@), line@),
        ).content.len() > 0,
        r matches Inbound::Chat { event } ==> {
            &&& event.has_content()
            &&& event.msg.timestamp == timestamp
            &&& event.msg@ == message_of(regex_captures(message_pattern(domain@), line@))
            &&& event.tags@ == tags_of_block(
                captured_tags(regex_captures(tag_pattern(domain@), line@)),
            )
        },
{
    if is_probe(line, domain) {
        Inbound::Probe { response: probe_response(domain) }
    } else {
        let event = Event::parse(line, domain, timestamp);
        if event.carries_content() {
            Inbound::Chat { event }
        } else {
            Inbound::Other
        }
    }
}

} // verus!
