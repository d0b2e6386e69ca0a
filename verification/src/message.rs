//! Messages, partial updates to them, and the reading of their timestamps.

use vstd::prelude::*;
use crate::model::{text_of, UserEntity, UserView};

verus! {

/// A message as the renderer keeps it.
#[derive(Clone, Debug, PartialEq, Eq)]
pub struct Message {
    pub id: u64,
    pub channel_id: u64,
    pub author: UserEntity,
    pub content: String,
    pub timestamp: String,
    pub edited_timestamp: Option<String>,
    pub mentions: Vec<u64>,
    pub mention_roles: Vec<u64>,
    pub mention_everyone: bool,
    pub pinned: bool,
    pub tts: bool,
}

/// A message over the texts and sequences that it holds.
pub struct MessageView {
    pub id: u64,
    pub channel_id: u64,
    pub author: UserView,
    pub content: Seq<char>,
    pub timestamp: Seq<char>,
    pub edited_timestamp: Option<Seq<char>>,
    pub mentions: Seq<u64>,
    pub mention_roles: Seq<u64>,
    pub mention_everyone: bool,
    pub pinned: bool,
    pub tts: bool,
}

impl View for Message {
    type V = MessageView;

    open spec fn view(&self) -> MessageView {
        MessageView {
            id: self.id,
            channel_id: self.channel_id,
            author: self.author@,
            content: self.content@,
            timestamp: self.timestamp@,
            edited_timestamp: text_of(self.edited_timestamp),
            mentions: self.mentions@,
            mention_roles: self.mention_roles@,
            mention_everyone: self.mention_everyone,
            pinned: self.pinned,
            tts: self.tts,
        }
    }
}

/// A partial update to the message with the same id. A field that is `None`
/// is absent from the update.
#[derive(Clone, Debug, PartialEq, Eq)]
pub struct MessageUpdate {
    pub id: u64,
    pub channel_id: u64,
    pub author: Option<UserEntity>,
    pub content: Option<String>,
    pub timestamp: Option<String>,
    pub edited_timestamp: Option<String>,
    pub mentions: Option<Vec<u64>>,
    pub mention_roles: Option<Vec<u64>>,
    pub mention_everyone: Option<bool>,
    pub pinned: Option<bool>,
    pub tts: Option<bool>,
}

/// A partial update over the texts and sequences that it holds.
pub struct MessageUpdateView {
    pub id: u64,
    pub channel_id: u64,
    pub author: Option<UserView>,
    pub content: Option<Seq<char>>,
    pub timestamp: Option<Seq<char>>,
    pub edited_timestamp: Option<Seq<char>>,
    pub mentions: Option<Seq<u64>>,
    pub mention_roles: Option<Seq<u64>>,
    pub mention_everyone: Option<bool>,
    pub pinned: Option<bool>,
    pub tts: Option<bool>,
}

impl View for MessageUpdate {
    type V = MessageUpdateView;

    open spec fn view(&self) -> MessageUpdateView {
        MessageUpdateView {
            id: self.id,
            channel_id: self.channel_id,
            author: match self.author {
                Some(author) => Some(author@),
                None => None,
            },
            content: text_of(self.content),
            timestamp: text_of(self.timestamp),
            edited_timestamp: text_of(self.edited_timestamp),
            mentions: match self.mentions {
                Some(mentions) => Some(mentions@),
                None => None,
            },
            mention_roles: match self.mention_roles {
                Some(roles) => Some(roles@),
                None => None,
            },
            mention_everyone: self.mention_everyone,
            pinned: self.pinned,
            tts: self.tts,
        }
    }
}

/// `present` where the update holds the field, `kept` where it does not.
pub open spec fn present_or<T>(present: Option<T>, kept: T) -> T {
    match present {
        Some(value) => value,
        None => kept,
    }
}

/// `mentions` followed by those of `added`, in order, that it does not hold:
/// the users mentioned before stay mentioned.
pub open spec fn with_mentions(mentions: Seq<u64>, added: Seq<u64>) -> Seq<u64>
    decreases added.len(),
{
    if added.len() == 0 {
        mentions
    } else {
        let before = with_mentions(mentions, added.drop_last());
        if before.contains(added.last()) {
            before
        } else {
            before.push(added.last())
        }
    }
}

impl MessageView {
    /// The message after a partial update: each field that the update holds
    /// is taken from it, each other field is kept. Mentions are added to.
    pub open spec fn updated(self, update: MessageUpdateView) -> MessageView {
        MessageView {
            id: update.id,
            channel_id: update.channel_id,
            author: present_or(update.author, self.author),
            content: present_or(update.content, self.content),
            timestamp: present_or(update.timestamp, self.timestamp),
            edited_timestamp: match update.edited_timestamp {
                Some(edited) => Some(edited),
                None => self.edited_timestamp,
            },
            mentions: match update.mentions {
                Some(added) => with_mentions(self.mentions, added),
                None => self.mentions,
            },
            mention_roles: present_or(update.mention_roles, self.mention_roles),
            mention_everyone: present_or(update.mention_everyone, self.mention_everyone),
            pinned: present_or(update.pinned, self.pinned),
            tts: present_or(update.tts, self.tts),
        }
    }

    /// An update changes only the fields that it holds: every field absent
    /// from it keeps its value, and every field present takes the update's.
    pub proof fn lemma_partial_update(self, update: MessageUpdateView)
        ensures
            update.author is None ==> self.updated(update).author == self.author,
            update.content is None ==> self.updated(update).content == self.content,
            update.timestamp is None ==> self.updated(update).timestamp == self.timestamp,
            update.edited_timestamp is None ==> self.updated(update).edited_timestamp
                == self.edited_timestamp,
            update.mentions is None ==> self.updated(update).mentions == self.mentions,
            update.mention_roles is None ==> self.updated(update).mention_roles
                == self.mention_roles,
            update.mention_everyone is None ==> self.updated(update).mention_everyone
                == self.mention_everyone,
            update.pinned is None ==> self.updated(update).pinned == self.pinned,
            update.tts is None ==> self.updated(update).tts == self.tts,
            update.author matches Some(author) ==> self.updated(update).author == author,
            update.content matches Some(content) ==> self.updated(update).content == content,
            update.timestamp matches Some(stamp) ==> self.updated(update).timestamp == stamp,
            update.edited_timestamp matches Some(edited) ==> self.updated(
                update,
            ).edited_timestamp == Some(edited),
            update.mention_roles matches Some(roles) ==> self.updated(update).mention_roles
                == roles,
            update.mention_everyone matches Some(flag) ==> self.updated(update).mention_everyone
                == flag,
            update.pinned matches Some(flag) ==> self.updated(update).pinned == flag,
            update.tts matches Some(flag) ==> self.updated(update).tts == flag,
            update.id == self.id && update.channel_id == self.channel_id ==> self.updated(
                update,
            ).id == self.id && self.updated(update).channel_id == self.channel_id,
    {
    }
}

/// Whether `ids` holds `id`.
pub fn holds_id(ids: &Vec<u64>, id: u64) -> (held: bool)
    ensures
        held == ids@.contains(id),
{
    let mut i: usize = 0;
    while i < ids.len()
        invariant
            i <= ids@.len(),
            forall|j: int| 0 <= j < i ==> ids@[j] != id,
        decreases ids@.len() - i,
    {
        if ids[i] == id {
            return true;
        }
        i = i + 1;
    }
    false
}

/// Adds to `mentions` each id of `added` that it does not hold yet.
pub fn add_mentions(mentions: &mut Vec<u64>, added: &Vec<u64>)
    ensures
        final(mentions)@ == with_mentions(old(mentions)@, added@),
{
    let mut i: usize = 0;
    while i < added.len()
        invariant
            i <= added@.len(),
            mentions@ == with_mentions(old(mentions)@, added@.take(i as int)),
        decreases added@.len() - i,
    {
        proof {
            assert(added@.take(i + 1).drop_last() == added@.take(i as int));
        }
        if !holds_id(mentions, added[i]) {
            mentions.push(added[i]);
        }
        i = i + 1;
    }
    proof {
        assert(added@.take(i as int) == added@);
    }
}

impl Message {
    /// Applies a partial update: only the fields that it holds change.
    pub fn apply_update(&mut self, update: MessageUpdate)
        ensures
            final(self)@ == old(self)@.updated(update@),
    {
        self.id = update.id;
        self.channel_id = update.channel_id;
        if let Some(edited) = update.edited_timestamp {
            self.edited_timestamp = Some(edited);
        }
        if let Some(added) = update.mentions {
            add_mentions(&mut self.mentions, &added);
        }
        if let Some(author) = update.author {
            self.author = author;
        }
        if let Some(content) = update.content {
            self.content = content;
        }
        if let Some(mention_everyone) = update.mention_everyone {
            self.mention_everyone = mention_everyone;
        }
        if let Some(mention_roles) = update.mention_roles {
            self.mention_roles = mention_roles;
        }
        if let Some(pinned) = update.pinned {
            self.pinned = pinned;
        }
        if let Some(timestamp) = update.timestamp {
            self.timestamp = timestamp;
        }
        if let Some(tts) = update.tts {
            self.tts = tts;
        }
    }
}

/// The seconds since the Unix epoch that an RFC 3339 date and time names, or
/// `None` for a text that is not one.
pub uninterp spec fn rfc3339_seconds(text: Seq<char>) -> Option<i64>;

/// Reads an RFC 3339 date and time with `chrono::DateTime::parse_from_rfc3339`
/// and converts it with `DateTime::timestamp`. The contract only gives the
/// outcome its name: the same text always reads the same.
#[verifier::external_body]
pub(crate) fn read_rfc3339(text: &str) -> (seconds: Option<i64>)
    ensures
        seconds == rfc3339_seconds(text@),
{
    match chrono::DateTime::parse_from_rfc3339(text) {
        Ok(moment) => Some(moment.timestamp()),
        Err(_) => None,
    }
}

} // verus!
