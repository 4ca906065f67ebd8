//! The metadata tags that precede a protocol line.

use vstd::prelude::*;
use crate::number::{parse_i32, parse_i32_spec};
use crate::pattern::{group, group_text, regex_captures, search};
use crate::tag_map::{json_object, TagMap};
use crate::text::{
    chars_of, find, first_index, lemma_first_index, rows, slice, split, split_spec, string_of,
    unescape, unescape_spec,
};

verus! {

/// The tags of one line. Every tag is optional: a text tag that is absent
/// is the empty string and an absent flag is 0. `tags_raw` holds all tags
/// of the block, known or not, as one JSON object.
#[derive(Debug, Clone)]
pub struct Tag {
    pub badge_info: String,
    pub badges: String,
    pub bits: String,
    pub client_nonce: String,
    pub color: String,
    pub display_name: String,
    pub emote_only: String,
    pub emotes: String,
    pub first_msg: i32,
    pub flags: String,
    pub id: String,
    pub is_mod: i32,
    pub reply_parent_display_name: String,
    pub reply_parent_msg_body: String,
    pub reply_parent_msg_id: String,
    pub reply_parent_user_id: String,
    pub reply_parent_user_login: String,
    pub returning_chatter: i32,
    pub room_id: String,
    pub subscriber: i32,
    pub tags_raw: String,
    pub tmi_sent_ts: String,
    pub turbo: i32,
    pub user_id: String,
    pub user_type: String,
    pub vip: String,
}

/// What a `Tag` holds, as mathematical values.
pub struct TagView {
    pub badge_info: Seq<char>,
    pub badges: Seq<char>,
    pub bits: Seq<char>,
    pub client_nonce: Seq<char>,
    pub color: Seq<char>,
    pub display_name: Seq<char>,
    pub emote_only: Seq<char>,
    pub emotes: Seq<char>,
    pub first_msg: int,
    pub flags: Seq<char>,
    pub id: Seq<char>,
    pub is_mod: int,
    pub reply_parent_display_name: Seq<char>,
    pub reply_parent_msg_body: Seq<char>,
    pub reply_parent_msg_id: Seq<char>,
    pub reply_parent_user_id: Seq<char>,
    pub reply_parent_user_login: Seq<char>,
    pub returning_chatter: int,
    pub room_id: Seq<char>,
    pub subscriber: int,
    pub tags_raw: Seq<char>,
    pub tmi_sent_ts: Seq<char>,
    pub turbo: int,
    pub user_id: Seq<char>,
    pub user_type: Seq<char>,
    pub vip: Seq<char>,
}

impl TagView {
    /// Every text empty, every flag 0.
    pub open spec fn empty() -> TagView {
        TagView {
            badge_info: Seq::empty(),
            badges: Seq::empty(),
            bits: Seq::empty(),
            client_nonce: Seq::empty(),
            color: Seq::empty(),
            display_name: Seq::empty(),
            emote_only: Seq::empty(),
            emotes: Seq::empty(),
            first_msg: 0,
            flags: Seq::empty(),
            id: Seq::empty(),
            is_mod: 0,
            reply_parent_display_name: Seq::empty(),
            reply_parent_msg_body: Seq::empty(),
            reply_parent_msg_id: Seq::empty(),
            reply_parent_user_id: Seq::empty(),
            reply_parent_user_login: Seq::empty(),
            returning_chatter: 0,
            room_id: Seq::empty(),
            subscriber: 0,
            tags_raw: Seq::empty(),
            tmi_sent_ts: Seq::empty(),
            turbo: 0,
            user_id: Seq::empty(),
            user_type: Seq::empty(),
            vip: Seq::empty(),
        }
    }
}

impl View for Tag {
    type V = TagView;

    open spec fn view(&self) -> TagView {
        TagView {
            badge_info: self.badge_info@,
            badges: self.badges@,
            bits: self.bits@,
            client_nonce: self.client_nonce@,
            color: self.color@,
            display_name: self.display_name@,
            emote_only: self.emote_only@,
            emotes: self.emotes@,
            first_msg: self.first_msg as int,
            flags: self.flags@,
            id: self.id@,
            is_mod: self.is_mod as int,
            reply_parent_display_name: self.reply_parent_display_name@,
            reply_parent_msg_body: self.reply_parent_msg_body@,
            reply_parent_msg_id: self.reply_parent_msg_id@,
            reply_parent_user_id: self.reply_parent_user_id@,
            reply_parent_user_login: self.reply_parent_user_login@,
            returning_chatter: self.returning_chatter as int,
            room_id: self.room_id@,
            subscriber: self.subscriber as int,
            tags_raw: self.tags_raw@,
            tmi_sent_ts: self.tmi_sent_ts@,
            turbo: self.turbo as int,
            user_id: self.user_id@,
            user_type: self.user_type@,
            vip: self.vip@,
        }
    }
}

/// The pattern that finds the tag block of a line from the service at
/// `domain`: an `@`, the tags, then a space and the sender's prefix
/// `:nick!user@host.domain`, a space and the rest of the line. The domain
/// is read as pattern text.
pub open spec fn tag_pattern(domain: Seq<char>) -> Seq<char> {
    "@(?P<tags>(.+)) :\\w*!\\w*@\\w*."@ + domain + " .+"@
}

/// The tag block that a search with `tag_pattern` found: the text of
/// group 1, or nothing.
pub open spec fn captured_tags(caps: Option<Seq<Option<Seq<char>>>>) -> Seq<char> {
    match group_text(caps, 1) {
        Some(tags) => tags,
        None => Seq::empty(),
    }
}

/// The field holds a `=`.
pub open spec fn has_separator(field: Seq<char>) -> bool {
    first_index(field, '=') < field.len()
}

/// What stands before the first `=` of a field.
pub open spec fn field_key(field: Seq<char>) -> Seq<char> {
    field.take(first_index(field, '='))
}

/// What stands after the first `=` of a field, with `\s` unescaped.
pub open spec fn field_value(field: Seq<char>) -> Seq<char> {
    unescape_spec(field.skip(first_index(field, '=') + 1))
}

/// A tag block is well formed when it has more than one field and every
/// field is of the form `key=value`.
pub open spec fn well_formed_block(fields: Seq<Seq<char>>) -> bool {
    &&& fields.len() > 1
    &&& forall|i: int| 0 <= i < fields.len() ==> has_separator(#[trigger] fields[i])
}

/// The map that the fields of a block write down, a later field replacing
/// an earlier one with the same key.
pub open spec fn block_map(fields: Seq<Seq<char>>) -> Map<Seq<char>, Seq<char>>
    decreases fields.len(),
{
    if fields.len() == 0 {
        Map::empty()
    } else {
        block_map(fields.drop_last()).insert(field_key(fields.last()), field_value(fields.last()))
    }
}

/// The value of a text tag: what the map holds for `key`, else empty.
pub open spec fn text_of(entries: Map<Seq<char>, Seq<char>>, key: Seq<char>) -> Seq<char> {
    if entries.dom().contains(key) {
        entries[key]
    } else {
        Seq::empty()
    }
}

/// The number that `value` writes as an `i32`, or 0 where it writes none.
pub open spec fn number_or_zero(value: Seq<char>) -> int {
    match parse_i32_spec(value) {
        Some(number) => number,
        None => 0,
    }
}

/// The value of a flag: what the map holds for `key`, read as an `i32`;
/// 0 where the key is absent or its value is no number.
pub open spec fn flag_of(entries: Map<Seq<char>, Seq<char>>, key: Seq<char>) -> int {
    if entries.dom().contains(key) {
        number_or_zero(entries[key])
    } else {
        0
    }
}

/// The tags that a map of a block's fields gives, with `raw` as the
/// serialised block.
pub open spec fn tag_view_of(entries: Map<Seq<char>, Seq<char>>, raw: Seq<char>) -> TagView {
    TagView {
        badge_info: text_of(entries, "badge-info"@),
        badges: text_of(entries, "badges"@),
        bits: text_of(entries, "bits"@),
        client_nonce: text_of(entries, "client-nonce"@),
        color: text_of(entries, "color"@),
        display_name: text_of(entries, "display-name"@),
        emote_only: text_of(entries, "emote-only"@),
        emotes: text_of(entries, "emotes"@),
        first_msg: flag_of(entries, "first-msg"@),
        flags: text_of(entries, "flags"@),
        id: text_of(entries, "id"@),
        is_mod: flag_of(entries, "mod"@),
        reply_parent_display_name: text_of(entries, "reply-parent-display-name"@),
        reply_parent_msg_body: text_of(entries, "reply-parent-msg-body"@),
        reply_parent_msg_id: text_of(entries, "reply-parent-msg-id"@),
        reply_parent_user_id: text_of(entries, "reply-parent-user-id"@),
        reply_parent_user_login: text_of(entries, "reply-parent-user-login"@),
        returning_chatter: flag_of(entries, "returning-chatter"@),
        room_id: text_of(entries, "room-id"@),
        subscriber: flag_of(entries, "subscriber"@),
        tags_raw: raw,
        tmi_sent_ts: text_of(entries, "tmi-sent-ts"@),
        turbo: flag_of(entries, "turbo"@),
        user_id: text_of(entries, "user-id"@),
        user_type: text_of(entries, "user-type"@),
        vip: text_of(entries, "vip"@),
    }
}

/// The tags that the text of a tag block gives: those of its fields where
/// the block is well formed, the defaults where it is not.
pub open spec fn tags_of_block(block: Seq<char>) -> TagView {
    let fields = split_spec(block, ';');
    if well_formed_block(fields) {
        tag_view_of(block_map(fields), json_object(block_map(fields)))
    } else {
        TagView::empty()
    }
}

/// Copies the value of a text tag out of the map.
fn text(entries: &TagMap, key: &str) -> (r: String)
    requires
        entries.wf(),
    ensures
        r@ == text_of(entries@, key@),
{
    match entries.get(key) {
        Some(value) => value.clone(),
        None => String::new(),
    }
}

/// Reads a flag out of the map.
fn flag(entries: &TagMap, key: &str) -> (r: i32)
    requires
        entries.wf(),
    ensures
        r == flag_of(entries@, key@),
{
    match entries.get(key) {
        Some(value) => {
            let digits = chars_of(value.as_str());
            match parse_i32(&digits) {
                Some(number) => number,
                None => 0,
            }
        },
        None => 0,
    }
}

/// Reads the fields of a block into a map. `None` where a field has no `=`.
pub fn read_fields(fields: &Vec<Vec<char>>) -> (r: Option<TagMap>)
    ensures
        match r {
            Some(entries) => {
                &&& entries.wf()
                &&& entries@ == block_map(rows(fields@))
                &&& forall|i: int| 0 <= i < fields.len() ==> has_separator(#[trigger] rows(fields@)[i])
            },
            None => exists|i: int| 0 <= i < fields.len() && !has_separator(#[trigger] rows(fields@)[i]),
        },
{
    let mut entries = TagMap::new();
    let mut i: usize = 0;
    proof {
        assert(rows(fields@).take(0) == Seq::<Seq<char>>::empty());
    }
    while i < fields.len()
        invariant
            i <= fields.len(),
            entries.wf(),
            entries@ == block_map(rows(fields@).take(i as int)),
            forall|j: int| 0 <= j < i ==> has_separator(#[trigger] rows(fields@)[j]),
        decreases fields.len() - i,
    {
        let field = &fields[i];
        proof {
            assert(rows(fields@)[i as int] == field@);
            lemma_first_index(field@, '=');
            assert(rows(fields@).take(i + 1).drop_last() == rows(fields@).take(i as int));
            assert(rows(fields@).take(i + 1).last() == field@);
        }
        match find(field, '=') {
            Some(at) => {
                let key = slice(field, 0, at);
                let escaped = slice(field, at + 1, field.len());
                let value = unescape(&escaped);
                proof {
                    assert(key@ == field_key(field@));
                    assert(escaped@ == field@.skip(at + 1));
                }
                entries.insert(string_of(&key), string_of(&value));
            },
            None => {
                return None;
            },
        }
        i += 1;
    }
    proof {
        assert(rows(fields@).take(fields.len() as int) == rows(fields@));
    }
    Some(entries)
}

impl Tag {
    /// The tags of a line that carries none.
    pub fn new() -> (tag: Self)
        ensures
            tag@ == TagView::empty(),
    {
        Self {
            badge_info: String::new(),
            badges: String::new(),
            bits: String::new(),
            client_nonce: String::new(),
            color: String::new(),
            display_name: String::new(),
            emote_only: String::new(),
            emotes: String::new(),
            first_msg: 0,
            flags: String::new(),
            id: String::new(),
            is_mod: 0,
            reply_parent_display_name: String::new(),
            reply_parent_msg_body: String::new(),
            reply_parent_msg_id: String::new(),
            reply_parent_user_id: String::new(),
            reply_parent_user_login: String::new(),
            returning_chatter: 0,
            room_id: String::new(),
            subscriber: 0,
            tags_raw: String::new(),
            tmi_sent_ts: String::new(),
            turbo: 0,
            user_id: String::new(),
            user_type: String::new(),
            vip: String::new(),
        }
    }

    /// Fills every known tag from the map; `tags_raw` is stored as it is.
    pub fn from_entries(entries: &TagMap, tags_raw: String) -> (tag: Self)
        requires
            entries.wf(),
        ensures
            tag@ == tag_view_of(entries@, tags_raw@),
    {
        Self {
            badge_info: text(entries, "badge-info"),
            badges: text(entries, "badges"),
            bits: text(entries, "bits"),
            client_nonce: text(entries, "client-nonce"),
            color: text(entries, "color"),
            display_name: text(entries, "display-name"),
            emote_only: text(entries, "emote-only"),
            emotes: text(entries, "emotes"),
            first_msg: flag(entries, "first-msg"),
            flags: text(entries, "flags"),
            id: text(entries, "id"),
            is_mod: flag(entries, "mod"),
            reply_parent_display_name: text(entries, "reply-parent-display-name"),
            reply_parent_msg_body: text(entries, "reply-parent-msg-body"),
            reply_parent_msg_id: text(entries, "reply-parent-msg-id"),
            reply_parent_user_id: text(entries, "reply-parent-user-id"),
            reply_parent_user_login: text(entries, "reply-parent-user-login"),
            returning_chatter: flag(entries, "returning-chatter"),
            room_id: text(entries, "room-id"),
            subscriber: flag(entries, "subscriber"),
            tags_raw,
            tmi_sent_ts: text(entries, "tmi-sent-ts"),
            turbo: flag(entries, "turbo"),
            user_id: text(entries, "user-id"),
            user_type: text(entries, "user-type"),
            vip: text(entries, "vip"),
        }
    }

    /// Reads the text of a tag block, the part of a line between its
    /// leading `@` and the sender's prefix.
    pub fn from_block(block: &str) -> (tag: Self)
        ensures
            tag@ == tags_of_block(block@),
    {
        let chars = chars_of(block);
        let fields = split(&chars, ';');
        if fields.len() > 1 {
            match read_fields(&fields) {
                Some(entries) => {
                    let tags_raw = entries.to_json();
                    Self::from_entries(&entries, tags_raw)
                },
                None => Self::new(),
            }
        } else {
            Self::new()
        }
    }

    /// The pattern `tag_pattern` for the service at `domain`.
    pub fn pattern(domain: &str) -> (p: String)
        ensures
            p@ == tag_pattern(domain@),
    {
        let head: String = "@(?P<tags>(.+)) :\\w*!\\w*@\\w*.".to_owned();
        head.concat(domain).concat(" .+")
    }

    /// The tag block of `data`, a line from the service at `domain`: what
    /// the search with `tag_pattern` captures, empty where it finds nothing.
    pub fn capture_tags(data: &str, domain: &str) -> (block: String)
        ensures
            block@ == captured_tags(regex_captures(tag_pattern(domain@), data@)),
    {
        let pattern = Self::pattern(domain);
        let caps = search(pattern.as_str(), data);
        match group(&caps, 1) {
            Some(tags) => tags,
            None => String::new(),
        }
    }

    /// The tags of `data`, a line from the service at `domain`. Never
    /// fails: a line without a well-formed tag block has the default tags.
    pub fn parse_tags(data: &str, domain: &str) -> (tag: Self)
        ensures
            tag@ == tags_of_block(captured_tags(regex_captures(tag_pattern(domain@), data@))),
    {
        let block = Self::capture_tags(data, domain);
        Self::from_block(block.as_str())
    }
}

/// A line in which the pattern finds no tag block has the default tags.
pub proof fn lemma_no_block_gives_defaults(caps: Option<Seq<Option<Seq<char>>>>)
    requires
        group_text(caps, 1) is None,
    ensures
        captured_tags(caps) == Seq::<char>::empty(),
        tags_of_block(captured_tags(caps)) == TagView::empty(),
{
    assert(split_spec(Seq::<char>::empty(), ';') == seq![Seq::<char>::empty()]);
}

/// A tag block that is not well formed has the default tags.
pub proof fn lemma_malformed_block_gives_defaults(block: Seq<char>)
    requires
        !well_formed_block(split_spec(block, ';')),
    ensures
        tags_of_block(block) == TagView::empty(),
{
}

/// The last field that carries a key decides what the map holds for it.
pub proof fn lemma_last_field_wins(fields: Seq<Seq<char>>, i: int)
    requires
        0 <= i < fields.len(),
        forall|j: int| i < j < fields.len() ==> field_key(#[trigger] fields[j]) != field_key(fields[i]),
    ensures
        block_map(fields).dom().contains(field_key(fields[i])),
        block_map(fields)[field_key(fields[i])] == field_value(fields[i]),
    decreases fields.len(),
{
    if i < fields.len() - 1 {
        let front = fields.drop_last();
        assert(front[i] == fields[i]);
        assert forall|j: int| i < j < front.len() implies field_key(#[trigger] front[j])
            != field_key(front[i]) by {
            assert(front[j] == fields[j]);
        }
        lemma_last_field_wins(front, i);
        assert(field_key(fields[fields.len() - 1]) != field_key(fields[i]));
    }
}

/// A key that no field carries is not in the map, so its tag has the
/// default value.
pub proof fn lemma_absent_key_is_default(fields: Seq<Seq<char>>, key: Seq<char>)
    requires
        forall|j: int| 0 <= j < fields.len() ==> field_key(#[trigger] fields[j]) != key,
    ensures
        !block_map(fields).dom().contains(key),
        text_of(block_map(fields), key) == Seq::<char>::empty(),
        flag_of(block_map(fields), key) == 0,
    decreases fields.len(),
{
    if fields.len() > 0 {
        let front = fields.drop_last();
        assert forall|j: int| 0 <= j < front.len() implies field_key(#[trigger] front[j]) != key by {
            assert(front[j] == fields[j]);
        }
        lemma_absent_key_is_default(front, key);
        assert(field_key(fields[fields.len() - 1]) != key);
    }
}

/// In a well-formed block every known key reaches its own field of the
/// tags: a text tag holds the value of the last field with its key, a flag
/// the number that this value writes.
pub proof fn lemma_known_keys_round_trip(block: Seq<char>, i: int)
    requires
        well_formed_block(split_spec(block, ';')),
        0 <= i < split_spec(block, ';').len(),
        forall|j: int|
            i < j < split_spec(block, ';').len() ==> field_key(#[trigger] split_spec(block, ';')[j])
                != field_key(split_spec(block, ';')[i]),
    ensures
        field_key(split_spec(block, ';')[i]) == "badge-info"@ ==> tags_of_block(block).badge_info == field_value(
            split_spec(block, ';')[i],
        ),
        field_key(split_spec(block, ';')[i]) == "badges"@ ==> tags_of_block(block).badges == field_value(
            split_spec(block, ';')[i],
        ),
        field_key(split_spec(block, ';')[i]) == "bits"@ ==> tags_of_block(block).bits == field_value(
            split_spec(block, ';')[i],
        ),
        field_key(split_spec(block, ';')[i]) == "client-nonce"@ ==> tags_of_block(block).client_nonce == field_value(
            split_spec(block, ';')[i],
        ),
        field_key(split_spec(block, ';')[i]) == "color"@ ==> tags_of_block(block).color == field_value(
            split_spec(block, ';')[i],
        ),
        field_key(split_spec(block, ';')[i]) == "display-name"@ ==> tags_of_block(block).display_name == field_value(
            split_spec(block, ';')[i],
        ),
        field_key(split_spec(block, ';')[i]) == "emote-only"@ ==> tags_of_block(block).emote_only == field_value(
            split_spec(block, ';')[i],
        ),
        field_key(split_spec(block, ';')[i]) == "emotes"@ ==> tags_of_block(block).emotes == field_value(
            split_spec(block, ';')[i],
        ),
        field_key(split_spec(block, ';')[i]) == "first-msg"@ ==> tags_of_block(block).first_msg == number_or_zero(
            field_value(split_spec(block, ';')[i]),
        ),
        field_key(split_spec(block, ';')[i]) == "flags"@ ==> tags_of_block(block).flags == field_value(
            split_spec(block, ';')[i],
        ),
        field_key(split_spec(block, ';')[i]) == "id"@ ==> tags_of_block(block).id == field_value(
            split_spec(block, ';')[i],
        ),
        field_key(split_spec(block, ';')[i]) == "mod"@ ==> tags_of_block(block).is_mod == number_or_zero(
            field_value(split_spec(block, ';')[i]),
        ),
        field_key(split_spec(block, ';')[i]) == "reply-parent-display-name"@ ==> tags_of_block(block).reply_parent_display_name == field_value(
            split_spec(block, ';')[i],
        ),
        field_key(split_spec(block, ';')[i]) == "reply-parent-msg-body"@ ==> tags_of_block(block).reply_parent_msg_body == field_value(
            split_spec(block, ';')[i],
        ),
        field_key(split_spec(block, ';')[i]) == "reply-parent-msg-id"@ ==> tags_of_block(block).reply_parent_msg_id == field_value(
            split_spec(block, ';')[i],
        ),
        field_key(split_spec(block, ';')[i]) == "reply-parent-user-id"@ ==> tags_of_block(block).reply_parent_user_id == field_value(
            split_spec(block, ';')[i],
        ),
        field_key(split_spec(block, ';')[i]) == "reply-parent-user-login"@ ==> tags_of_block(block).reply_parent_user_login == field_value(
            split_spec(block, ';')[i],
        ),
        field_key(split_spec(block, ';')[i]) == "returning-chatter"@ ==> tags_of_block(block).returning_chatter == number_or_zero(
            field_value(split_spec(block, ';')[i]),
        ),
        field_key(split_spec(block, ';')[i]) == "room-id"@ ==> tags_of_block(block).room_id == field_value(
            split_spec(block, ';')[i],
        ),
        field_key(split_spec(block, ';')[i]) == "subscriber"@ ==> tags_of_block(block).subscriber == number_or_zero(
            field_value(split_spec(block, ';')[i]),
        ),
        field_key(split_spec(block, ';')[i]) == "tmi-sent-ts"@ ==> tags_of_block(block).tmi_sent_ts == field_value(
            split_spec(block, ';')[i],
        ),
        field_key(split_spec(block, ';')[i]) == "turbo"@ ==> tags_of_block(block).turbo == number_or_zero(
            field_value(split_spec(block, ';')[i]),
        ),
        field_key(split_spec(block, ';')[i]) == "user-id"@ ==> tags_of_block(block).user_id == field_value(
            split_spec(block, ';')[i],
        ),
        field_key(split_spec(block, ';')[i]) == "user-type"@ ==> tags_of_block(block).user_type == field_value(
            split_spec(block, ';')[i],
        ),
        field_key(split_spec(block, ';')[i]) == "vip"@ ==> tags_of_block(block).vip == field_value(
            split_spec(block, ';')[i],
        ),
{
    lemma_last_field_wins(split_spec(block, ';'), i);
}

} // verus!
