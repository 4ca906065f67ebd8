//! One parsed protocol line.

use vstd::prelude::*;
use crate::msg::{message_of, message_pattern, Msg, Timestamp};
use crate::pattern::regex_captures;
use crate::tags::{captured_tags, tag_pattern, tags_of_block, Tag};

verus! {

/// A message together with the tags of its line.
#[derive(Debug, Clone)]
pub struct Event {
    pub msg: Msg,
    pub tags: Tag,
}

impl Event {
    /// Puts a message and its tags together.
    pub fn new(msg: Msg, tags: Tag) -> (event: Self)
        ensures
            event.msg == msg,
            event.tags == tags,
    {
        Self { msg, tags }
    }

    /// The message has content. Only such events are worth storing.
    pub open spec fn has_content(&self) -> bool {
        self.msg.content@.len() > 0
    }

    /// Whether the message has content.
    pub fn carries_content(&self) -> (b: bool)
        ensures
            b == self.has_content(),
    {
        !self.msg.content.as_str().is_empty()
    }

    /// Reads `line`, a line from the service at `domain` that was read at
    /// `timestamp`, as an event: its message and its tags, each with its
    /// defaults where the line has none.
    pub fn parse(line: &str, domain: &str, timestamp: Timestamp) -> (event: Self)
        ensures
            event.msg@ == message_of(regex_captures(message_pattern(domain@), line@)),
            event.msg.timestamp == timestamp,
            event.tags@ == tags_of_block(
                captured_tags(regex_captures(tag_pattern(domain@), line@)),
            ),
    {
        let msg = Msg::parse_message(line, domain, timestamp);
        let tags = Tag::parse_tags(line, domain);
        Self::new(msg, tags)
    }
}

} // verus!
