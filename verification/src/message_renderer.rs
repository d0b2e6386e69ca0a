//! The log of rendered messages of one buffer: append, edit in place, remove,
//! and redraw.

use vstd::prelude::*;
use crate::host::{ActionView, BufferHandle, Host, HostView, LineView, NotifyTag};
use crate::message::{
    holds_id, read_rfc3339, rfc3339_seconds, Message, MessageUpdate, MessageUpdateView,
    MessageView,
};
use crate::mirror::{MirrorView, StateMirror};
use crate::model::views;
use crate::seqs::{first_index, lemma_first_index};

verus! {

/// A stored message with the seconds that its timestamp names.
#[derive(Clone, Debug, PartialEq, Eq)]
pub struct Entry {
    pub message: Message,
    pub date: i64,
}

/// A stored message over its view, with its date.
pub struct EntryView {
    pub message: MessageView,
    pub date: i64,
}

impl View for Entry {
    type V = EntryView;

    open spec fn view(&self) -> EntryView {
        EntryView { message: self.message@, date: self.date }
    }
}

/// Why the renderer dropped a message or an update.
#[derive(Clone, Copy, PartialEq, Eq, Structural, Debug)]
pub enum RenderError {
    /// The timestamp is not an RFC 3339 date and time.
    InvalidTimestamp,
}

/// The notification class of a message: none for a replay; else highlight if
/// the current user is mentioned; else private in a private or group channel;
/// else an ordinary message.
pub open spec fn notify_tag(mentioned: bool, private: bool, notify: bool) -> NotifyTag {
    if !notify {
        NotifyTag::Silent
    } else if mentioned {
        NotifyTag::Highlight
    } else if private {
        NotifyTag::Private
    } else {
        NotifyTag::Message
    }
}

/// Whether the message mentions the current user.
pub open spec fn mentions_user(mirror: MirrorView, message: MessageView) -> bool {
    match mirror.user_id() {
        Some(id) => message.mentions.contains(id),
        None => false,
    }
}

/// The tag that the message is printed with.
pub open spec fn tag_of(mirror: MirrorView, message: MessageView, notify: bool) -> NotifyTag {
    notify_tag(mentions_user(mirror, message), mirror.is_private(message.channel_id), notify)
}

/// The log of one buffer.
pub struct MessageRender {
    pub buffer_handle: BufferHandle,
    pub messages: Vec<Entry>,
}

/// A log: the buffer that shows it and the stored messages in order.
pub struct RenderView {
    pub handle: BufferHandle,
    pub log: Seq<EntryView>,
}

impl View for MessageRender {
    type V = RenderView;

    open spec fn view(&self) -> RenderView {
        RenderView { handle: self.buffer_handle, log: views(self.messages@) }
    }
}

impl RenderView {
    /// The position of the first message with this id, or the log's length.
    pub open spec fn position(self, id: u64) -> int {
        first_index(self.log, |entry: EntryView| entry.message.id == id)
    }

    /// The log with one more message at its end.
    pub open spec fn appended(self, message: MessageView, date: i64) -> RenderView {
        RenderView { log: self.log.push(EntryView { message, date }), ..self }
    }

    /// The log without the first message with this id; the log itself if no
    /// message has it.
    pub open spec fn removed(self, id: u64) -> RenderView {
        if self.position(id) < self.log.len() {
            RenderView { log: self.log.remove(self.position(id)), ..self }
        } else {
            self
        }
    }

    /// The log with the update applied to the first message with its id, and
    /// with that message's date replaced where the update holds a timestamp,
    /// which `date` is the reading of; the log itself if no message has the id.
    pub open spec fn edited(self, update: MessageUpdateView, date: Option<i64>) -> RenderView {
        let at = self.position(update.id);
        if at < self.log.len() {
            RenderView {
                log: self.log.update(
                    at,
                    EntryView {
                        message: self.log[at].message.updated(update),
                        date: if update.timestamp is Some && date is Some {
                            date->0
                        } else {
                            self.log[at].date
                        },
                    },
                ),
                ..self
            }
        } else {
            self
        }
    }

    /// The print of the message at `at`, as a redraw makes it.
    pub open spec fn replay(self, at: int) -> ActionView {
        ActionView::Print {
            handle: self.handle,
            date: Some(self.log[at].date),
            tag: Some(NotifyTag::Silent),
            text: self.log[at].message.content,
        }
    }

    /// A redraw up to the message at `upto`: a clear, then a silent print of
    /// each message before it.
    pub open spec fn redraw_prefix(self, upto: int) -> Seq<ActionView> {
        seq![ActionView::Clear { handle: self.handle }] + Seq::new(
            upto as nat,
            |i: int| self.replay(i),
        )
    }

    /// A redraw: a clear, then a silent print of each message in order.
    pub open spec fn redraw_actions(self) -> Seq<ActionView> {
        self.redraw_prefix(self.log.len() as int)
    }

    /// The lines that show the log.
    pub open spec fn rendered(self) -> Seq<LineView> {
        Seq::new(
            self.log.len(),
            |i: int| LineView { date: Some(self.log[i].date), text: self.log[i].message.content },
        )
    }

    /// The buffer is open and shows exactly the log.
    pub open spec fn shown_by(self, host: HostView) -> bool {
        host.is_open(self.handle) && host.buffer(self.handle).lines == self.rendered()
    }

    /// After a redraw up to `upto` the buffer shows the first `upto` messages.
    proof fn lemma_redraw_prefix(self, host: HostView, upto: int)
        requires
            host.is_open(self.handle),
            0 <= upto <= self.log.len(),
        ensures
            host.after_all(self.redraw_prefix(upto)).is_open(self.handle),
            host.after_all(self.redraw_prefix(upto)).buffer(self.handle).lines
                == self.rendered().take(upto),
        decreases upto,
    {
        let actions = self.redraw_prefix(upto);
        if upto == 0 {
            assert(actions.drop_last() =~= Seq::empty());
            assert(host.after_all(actions.drop_last()) == host);
            assert(host.after_all(actions).buffer(self.handle).lines =~= self.rendered().take(0));
        } else {
            self.lemma_redraw_prefix(host, upto - 1);
            assert(actions.drop_last() =~= self.redraw_prefix(upto - 1));
            assert(actions.last() == self.replay(upto - 1));
            assert(host.after_all(actions).buffer(self.handle).lines =~= self.rendered().take(
                upto,
            ));
        }
    }

    /// After a redraw the buffer shows exactly the log, whatever it showed
    /// before.
    pub proof fn lemma_redraw_shows_log(self, host: HostView)
        requires
            host.is_open(self.handle),
        ensures
            self.shown_by(host.after_all(self.redraw_actions())),
    {
        self.lemma_redraw_prefix(host, self.log.len() as int);
        assert(self.rendered().take(self.log.len() as int) =~= self.rendered());
    }

    /// A buffer that shows the log shows the longer log after the print of an
    /// appended message, with whatever tag that print carries.
    pub proof fn lemma_append_shows_log(
        self,
        host: HostView,
        message: MessageView,
        date: i64,
        tag: Option<NotifyTag>,
    )
        requires
            self.shown_by(host),
        ensures
            self.appended(message, date).shown_by(
                host.after(
                    ActionView::Print {
                        handle: self.handle,
                        date: Some(date),
                        tag,
                        text: message.content,
                    },
                ),
            ),
    {
        let next = host.after(
            ActionView::Print { handle: self.handle, date: Some(date), tag, text: message.content },
        );
        assert(next.buffer(self.handle).lines =~= self.appended(message, date).rendered());
    }

    /// Removing an id that no message has changes nothing.
    pub proof fn lemma_remove_absent(self, id: u64)
        requires
            forall|i: int| 0 <= i < self.log.len() ==> (#[trigger] self.log[i]).message.id != id,
        ensures
            self.removed(id) == self,
    {
        lemma_first_index(
            self.log,
            |entry: EntryView| entry.message.id == id,
            self.log.len() as int,
        );
    }
}

/// One operation on a log.
pub enum RenderStep {
    /// A message is appended and printed with a tag.
    Append { message: MessageView, date: i64, tag: NotifyTag },
    /// A partial update is applied; `date` is the reading of its timestamp.
    Edit { update: MessageUpdateView, date: Option<i64> },
    /// The message with the id is removed.
    Remove { id: u64 },
}

/// A log together with the host that shows it.
pub struct Rendering {
    pub render: RenderView,
    pub host: HostView,
}

impl Rendering {
    /// The log and the host after one operation.
    pub open spec fn step(self, step: RenderStep) -> Rendering {
        match step {
            RenderStep::Append { message, date, tag } => Rendering {
                render: self.render.appended(message, date),
                host: self.host.after(
                    ActionView::Print {
                        handle: self.render.handle,
                        date: Some(date),
                        tag: Some(tag),
                        text: message.content,
                    },
                ),
            },
            RenderStep::Edit { update, date } => if update.timestamp is Some && date is None {
                self
            } else {
                Rendering {
                    render: self.render.edited(update, date),
                    host: self.host.after_all(
                        self.render.edited(update, date).redraw_actions(),
                    ),
                }
            },
            RenderStep::Remove { id } => Rendering {
                render: self.render.removed(id),
                host: self.host.after_all(self.render.removed(id).redraw_actions()),
            },
        }
    }

    /// The log and the host after the operations in order.
    pub open spec fn run(self, steps: Seq<RenderStep>) -> Rendering
        decreases steps.len(),
    {
        if steps.len() == 0 {
            self
        } else {
            self.run(steps.drop_last()).step(steps.last())
        }
    }

    /// Whatever is appended, edited and removed, in whatever order: a buffer
    /// that showed exactly the log before shows exactly the log after, as a
    /// fresh redraw of the log would.
    pub proof fn lemma_log_stays_shown(self, steps: Seq<RenderStep>)
        requires
            self.render.shown_by(self.host),
        ensures
            self.run(steps).render.shown_by(self.run(steps).host),
            self.run(steps).render.handle == self.render.handle,
            self.run(steps).render.shown_by(
                self.run(steps).host.after_all(self.run(steps).render.redraw_actions()),
            ),
        decreases steps.len(),
    {
        if steps.len() > 0 {
            let before = self.run(steps.drop_last());
            self.lemma_log_stays_shown(steps.drop_last());
            match steps.last() {
                RenderStep::Append { message, date, tag } => {
                    before.render.lemma_append_shows_log(before.host, message, date, Some(tag));
                },
                RenderStep::Edit { update, date } => {
                    before.render.edited(update, date).lemma_redraw_shows_log(before.host);
                },
                RenderStep::Remove { id } => {
                    before.render.removed(id).lemma_redraw_shows_log(before.host);
                },
            }
        }
        self.run(steps).render.lemma_redraw_shows_log(self.run(steps).host);
    }
}

/// The name of a notification class as the host knows it.
pub fn tag_name(tag: NotifyTag) -> (name: &'static str)
    ensures
        name@ == match tag {
            NotifyTag::Highlight => "notify_highlight"@,
            NotifyTag::Private => "notify_private"@,
            NotifyTag::Message => "notify_message"@,
            NotifyTag::Silent => "notify_none"@,
        },
{
    match tag {
        NotifyTag::Highlight => "notify_highlight",
        NotifyTag::Private => "notify_private",
        NotifyTag::Message => "notify_message",
        NotifyTag::Silent => "notify_none",
    }
}

impl MessageRender {
    /// An empty log for the buffer.
    pub fn new(buffer_handle: BufferHandle) -> (render: MessageRender)
        ensures
            render@.handle == buffer_handle,
            render@.log.len() == 0,
    {
        MessageRender { buffer_handle, messages: Vec::new() }
    }

    /// The tag that a message is printed with: exactly one class when
    /// `notify` is asked for, the silent one when it is not.
    pub fn msg_tags(cache: &StateMirror, msg: &Message, notify: bool) -> (tag: NotifyTag)
        ensures
            tag == tag_of(cache@, msg@, notify),
    {
        let private = cache.is_private(msg.channel_id);
        let mentioned = match cache.user_id() {
            Some(id) => holds_id(&msg.mentions, id),
            None => false,
        };
        if notify {
            if mentioned {
                NotifyTag::Highlight
            } else if private {
                NotifyTag::Private
            } else {
                NotifyTag::Message
            }
        } else {
            NotifyTag::Silent
        }
    }

    /// The position of the first message with this id, or the log's length.
    fn find(&self, id: u64) -> (at: usize)
        ensures
            at == self@.position(id),
            at <= self.messages@.len(),
    {
        let mut i: usize = 0;
        while i < self.messages.len() && self.messages[i].message.id != id
            invariant
                i <= self.messages@.len(),
                forall|j: int| 0 <= j < i ==> (#[trigger] self@.log[j]).message.id != id,
            decreases self.messages@.len() - i,
        {
            i = i + 1;
        }
        proof {
            lemma_first_index(self@.log, |entry: EntryView| entry.message.id == id, i as int);
        }
        i
    }

    /// Prints one message of the log to the buffer, with its date, and
    /// tagged for notification.
    fn print_msg(&self, host: &mut Host, cache: &StateMirror, entry: &Entry, notify: bool)
        requires
            old(host)@.is_open(self@.handle),
        ensures
            final(host)@ == old(host)@.after(
                ActionView::Print {
                    handle: self@.handle,
                    date: Some(entry.date),
                    tag: Some(tag_of(cache@, entry@.message, notify)),
                    text: entry@.message.content,
                },
            ),
    {
        let tag = Self::msg_tags(cache, &entry.message, notify);
        host.print(
            self.buffer_handle,
            Some(entry.date),
            Some(tag),
            entry.message.content.as_str(),
        );
    }

    /// Clears the buffer and prints every message again, silently.
    pub fn redraw_buffer(&self, host: &mut Host, cache: &StateMirror)
        requires
            old(host)@.is_open(self@.handle),
        ensures
            final(host)@ == old(host)@.after_all(self@.redraw_actions()),
            self@.shown_by(final(host)@),
    {
        host.clear(self.buffer_handle);
        proof {
            let first = self@.redraw_prefix(0);
            assert(first.drop_last() =~= Seq::empty());
            assert(old(host)@.after_all(first.drop_last()) == old(host)@);
        }
        let mut i: usize = 0;
        while i < self.messages.len()
            invariant
                i <= self.messages@.len(),
                host@.is_open(self@.handle),
                old(host)@.is_open(self@.handle),
                host@ == old(host)@.after_all(self@.redraw_prefix(i as int)),
            decreases self.messages@.len() - i,
        {
            self.print_msg(host, cache, &self.messages[i], false);
            proof {
                let longer = self@.redraw_prefix(i + 1);
                assert(longer.drop_last() =~= self@.redraw_prefix(i as int));
                assert(longer.last() == self@.replay(i as int));
                self@.lemma_redraw_prefix(old(host)@, i + 1);
            }
            i = i + 1;
        }
        proof {
            self@.lemma_redraw_shows_log(old(host)@);
        }
    }

    /// Appends a message whose timestamp was read as `date`. A message whose
    /// timestamp could not be read is dropped: nothing is stored or printed.
    pub fn add_dated(
        &mut self,
        host: &mut Host,
        cache: &StateMirror,
        msg: Message,
        date: Option<i64>,
        notify: bool,
    ) -> (done: Result<(), RenderError>)
        requires
            old(host)@.is_open(old(self)@.handle),
        ensures
            match date {
                Some(seconds) => done is Ok && final(self)@ == old(self)@.appended(msg@, seconds)
                    && final(host)@ == old(host)@.after(
                    ActionView::Print {
                        handle: old(self)@.handle,
                        date: Some(seconds),
                        tag: Some(tag_of(cache@, msg@, notify)),
                        text: msg@.content,
                    },
                ),
                None => done == Err::<(), RenderError>(RenderError::InvalidTimestamp)
                    && final(self)@ == old(self)@ && final(host)@ == old(host)@,
            },
            old(self)@.shown_by(old(host)@) ==> final(self)@.shown_by(final(host)@),
    {
        match date {
            Some(seconds) => {
                let entry = Entry { message: msg, date: seconds };
                self.print_msg(host, cache, &entry, notify);
                proof {
                    if old(self)@.shown_by(old(host)@) {
                        old(self)@.lemma_append_shows_log(
                            old(host)@,
                            msg@,
                            seconds,
                            Some(tag_of(cache@, msg@, notify)),
                        );
                    }
                }
                self.messages.push(entry);
                proof {
                    assert(final(self)@.log =~= old(self)@.appended(msg@, seconds).log);
                }
                Ok(())
            },
            None => Err(RenderError::InvalidTimestamp),
        }
    }

    /// Prints the message at the end of the buffer, tagged for notification,
    /// and stores it; drops it if its timestamp is no RFC 3339 date and time.
    pub fn add_msg(
        &mut self,
        host: &mut Host,
        cache: &StateMirror,
        msg: Message,
        notify: bool,
    ) -> (done: Result<(), RenderError>)
        requires
            old(host)@.is_open(old(self)@.handle),
        ensures
            match rfc3339_seconds(msg@.timestamp) {
                Some(seconds) => done is Ok && final(self)@ == old(self)@.appended(msg@, seconds)
                    && final(host)@ == old(host)@.after(
                    ActionView::Print {
                        handle: old(self)@.handle,
                        date: Some(seconds),
                        tag: Some(tag_of(cache@, msg@, notify)),
                        text: msg@.content,
                    },
                ),
                None => done == Err::<(), RenderError>(RenderError::InvalidTimestamp)
                    && final(self)@ == old(self)@ && final(host)@ == old(host)@,
            },
            old(self)@.shown_by(old(host)@) ==> final(self)@.shown_by(final(host)@),
    {
        let date = read_rfc3339(msg.timestamp.as_str());
        self.add_dated(host, cache, msg, date, notify)
    }

    /// Removes the first message with this id, if there is one, and redraws.
    /// An unknown id is no error: the log stays as it is.
    pub fn remove_msg(&mut self, host: &mut Host, cache: &StateMirror, id: u64)
        requires
            old(host)@.is_open(old(self)@.handle),
        ensures
            final(self)@ == old(self)@.removed(id),
            final(host)@ == old(host)@.after_all(final(self)@.redraw_actions()),
            final(self)@.shown_by(final(host)@),
    {
        let at = self.find(id);
        if at < self.messages.len() {
            self.messages.remove(at);
            proof {
                assert(final(self)@.log =~= old(self)@.removed(id).log);
            }
        }
        self.redraw_buffer(host, cache);
    }

    /// Applies a partial update whose timestamp, where it holds one, was read
    /// as `date`, and redraws. An update for an unknown id changes nothing in
    /// the log. An update whose timestamp could not be read is dropped whole.
    pub fn update_dated(
        &mut self,
        host: &mut Host,
        cache: &StateMirror,
        update: MessageUpdate,
        date: Option<i64>,
    ) -> (done: Result<(), RenderError>)
        requires
            old(host)@.is_open(old(self)@.handle),
        ensures
            if update@.timestamp is Some && date is None {
                done == Err::<(), RenderError>(RenderError::InvalidTimestamp) && final(self)@
                    == old(self)@ && final(host)@ == old(host)@
            } else {
                done is Ok && final(self)@ == old(self)@.edited(update@, date) && final(host)@
                    == old(host)@.after_all(final(self)@.redraw_actions())
                    && final(self)@.shown_by(final(host)@)
            },
    {
        if update.timestamp.is_some() && date.is_none() {
            return Err(RenderError::InvalidTimestamp);
        }
        let at = self.find(update.id);
        if at < self.messages.len() {
            if update.timestamp.is_some() {
                if let Some(seconds) = date {
                    self.messages[at].date = seconds;
                }
            }
            self.messages[at].message.apply_update(update);
            proof {
                assert(final(self)@.log =~= old(self)@.edited(update@, date).log);
            }
        }
        self.redraw_buffer(host, cache);
        Ok(())
    }

    /// Applies a partial update to the message with its id and redraws.
    pub fn update_msg(
        &mut self,
        host: &mut Host,
        cache: &StateMirror,
        update: MessageUpdate,
    ) -> (done: Result<(), RenderError>)
        requires
            old(host)@.is_open(old(self)@.handle),
        ensures
            ({
                let date = match update@.timestamp {
                    Some(text) => rfc3339_seconds(text),
                    None => None,
                };
                if update@.timestamp is Some && date is None {
                    done == Err::<(), RenderError>(RenderError::InvalidTimestamp) && final(self)@
                        == old(self)@ && final(host)@ == old(host)@
                } else {
                    done is Ok && final(self)@ == old(self)@.edited(update@, date) && final(host)@
                        == old(host)@.after_all(final(self)@.redraw_actions())
                    && final(self)@.shown_by(final(host)@)
                }
            }),
    {
        let date = match &update.timestamp {
            Some(text) => read_rfc3339(text.as_str()),
            None => None,
        };
        self.update_dated(host, cache, update, date)
    }
}

} // verus!
