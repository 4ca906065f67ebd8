//! Chat messages.

use vstd::prelude::*;
use crate::pattern::{captures_view, group, group_text, regex_captures, search};
use crate::text::{chars_of, lemma_strip_trailing, string_of, strip_trailing, trim_end};

verus! {

/// An instant on the UTC time line: whole seconds since the Unix epoch and
/// the nanoseconds into that second.
#[derive(Clone, Copy, Debug, PartialEq, Eq, Structural)]
pub struct Timestamp {
    pub secs: i64,
    pub nanos: u32,
}

/// One chat message. `timestamp` is the time of capture, not a time that
/// the server sent: whoever reads the line reads the clock and hands the
/// instant in.
#[derive(Debug, Clone)]
pub struct Msg {
    pub username: String,
    pub command: String,
    pub channel: String,
    pub content: String,
    pub timestamp: Timestamp,
}

/// The text of a message, as mathematical values.
pub struct MsgView {
    pub username: Seq<char>,
    pub command: Seq<char>,
    pub channel: Seq<char>,
    pub content: Seq<char>,
}

impl MsgView {
    /// Every text empty.
    pub open spec fn empty() -> MsgView {
        MsgView {
            username: Seq::empty(),
            command: Seq::empty(),
            channel: Seq::empty(),
            content: Seq::empty(),
        }
    }
}

impl View for Msg {
    type V = MsgView;

    open spec fn view(&self) -> MsgView {
        MsgView {
            username: self.username@,
            command: self.command@,
            channel: self.channel@,
            content: self.content@,
        }
    }
}

/// The pattern of a chat message from the service at `domain`: the
/// sender's prefix `:username!user@host.domain`, the command `PRIVMSG`, a
/// channel that starts with `#`, and after ` :` the content, which is not
/// empty. The domain is read as pattern text.
pub open spec fn message_pattern(domain: Seq<char>) -> Seq<char> {
    ":(?P<username>\\w*)!\\w*@\\w*."@ + domain
        + " (?P<command>PRIVMSG) (?P<channel>#\\w*) :(?P<content>.+)"@
}

/// All four groups of `message_pattern` took part in the match, and the
/// channel starts with `#`.
pub open spec fn is_message(caps: Option<Seq<Option<Seq<char>>>>) -> bool {
    &&& group_text(caps, 1) is Some
    &&& group_text(caps, 2) is Some
    &&& group_text(caps, 3) matches Some(channel) && channel.len() > 0 && channel[0] == '#'
    &&& group_text(caps, 4) is Some
}

/// The message that a search with `message_pattern` gives: username,
/// command and channel as captured, and the content as captured but for
/// the carriage returns at its end, which are cut off; every text empty
/// where the line is no chat message.
pub open spec fn message_of(caps: Option<Seq<Option<Seq<char>>>>) -> MsgView {
    if is_message(caps) {
        MsgView {
            username: group_text(caps, 1)->0,
            command: group_text(caps, 2)->0,
            channel: group_text(caps, 3)->0,
            content: strip_trailing(group_text(caps, 4)->0, '\r'),
        }
    } else {
        MsgView::empty()
    }
}

/// No message read from captures ends its content in a carriage return,
/// and nothing but carriage returns was cut off the captured content.
pub proof fn lemma_content_has_no_trailing_carriage_return(
    caps: Option<Seq<Option<Seq<char>>>>,
)
    ensures
        message_of(caps).content.len() > 0 ==> message_of(caps).content.last() != '\r',
        is_message(caps) ==> {
            let captured = group_text(caps, 4)->0;
            let content = message_of(caps).content;
            &&& content.len() <= captured.len()
            &&& content == captured.take(content.len() as int)
            &&& forall|i: int| content.len() <= i < captured.len() ==> captured[i] == '\r'
        },
{
    if is_message(caps) {
        lemma_strip_trailing(group_text(caps, 4)->0, '\r');
    }
}

/// A message read from captures names its channel with a leading `#`,
/// unless it is the empty message.
pub proof fn lemma_channel_has_hash(caps: Option<Seq<Option<Seq<char>>>>)
    ensures
        ({
            let msg = message_of(caps);
            msg == MsgView::empty() || (msg.channel.len() > 0 && msg.channel[0] == '#')
        }),
{
}

/// A line that the pattern does not match gives the empty message.
pub proof fn lemma_no_match_gives_empty_message(caps: Option<Seq<Option<Seq<char>>>>)
    requires
        caps is None,
    ensures
        message_of(caps) == MsgView::empty(),
{
}

impl Msg {
    /// The empty message, stamped with `timestamp`.
    pub fn new(timestamp: Timestamp) -> (msg: Self)
        ensures
            msg@ == MsgView::empty(),
            msg.timestamp == timestamp,
    {
        Self {
            username: String::new(),
            command: String::new(),
            channel: String::new(),
            content: String::new(),
            timestamp,
        }
    }

    /// The message that the capture groups of a search with
    /// `message_pattern` give, stamped with `timestamp`.
    pub fn from_captures(caps: &Option<Vec<Option<String>>>, timestamp: Timestamp) -> (msg: Self)
        ensures
            msg@ == message_of(captures_view(*caps)),
            msg.timestamp == timestamp,
            msg.content@.len() > 0 ==> msg.content@.last() != '\r',
            msg@ == MsgView::empty() || (msg.channel@.len() > 0 && msg.channel@[0] == '#'),
    {
        proof {
            lemma_content_has_no_trailing_carriage_return(captures_view(*caps));
        }
        let username = group(caps, 1);
        let command = group(caps, 2);
        let channel = group(caps, 3);
        let content = group(caps, 4);
        match (username, command, channel, content) {
            (Some(username), Some(command), Some(channel), Some(content)) => {
                if channel.as_str().is_empty() || channel.as_str().get_char(0) != '#' {
                    return Self::new(timestamp);
                }
                let raw = chars_of(content.as_str());
                let kept = trim_end(&raw, '\r');
                Self { username, command, channel, content: string_of(&kept), timestamp }
            },
            _ => Self::new(timestamp),
        }
    }

    /// The pattern `message_pattern` for the service at `domain`.
    pub fn pattern(domain: &str) -> (p: String)
        ensures
            p@ == message_pattern(domain@),
    {
        let head: String = ":(?P<username>\\w*)!\\w*@\\w*.".to_owned();
        head.concat(domain).concat(" (?P<command>PRIVMSG) (?P<channel>#\\w*) :(?P<content>.+)")
    }

    /// The chat message in `data`, a line from the service at `domain`
    /// that was read at `timestamp`. Never fails: a line that is no chat
    /// message gives the empty message.
    pub fn parse_message(data: &str, domain: &str, timestamp: Timestamp) -> (msg: Self)
        ensures
            msg@ == message_of(regex_captures(message_pattern(domain@), data@)),
            msg.timestamp == timestamp,
            msg.content@.len() > 0 ==> msg.content@.last() != '\r',
            msg@ == MsgView::empty() || (msg.channel@.len() > 0 && msg.channel@[0] == '#'),
    {
        let pattern = Self::pattern(domain);
        let caps = search(pattern.as_str(), data);
        Self::from_captures(&caps, timestamp)
    }
}

} // verus!
